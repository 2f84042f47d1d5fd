//! Chats, messages and events, common to all providers.
pub mod mock;
pub mod mock_laws;
pub mod telegram;
pub mod telegram_laws;
pub mod whatsapp;
pub mod whatsapp_invariant;
pub mod whatsapp_laws;
pub mod whatsapp_message_laws;
pub mod whatsapp_model;
pub mod whatsapp_peer_laws;
pub mod whatsapp_sync_laws;

use vstd::prelude::*;
use vstd::std_specs::cmp::PartialEqSpecImpl;

use crate::config::ProvidersConfig;
use crate::jid::{canonical, JidParts};
use crate::order::Ranked;
use crate::text::{
    begins, blank, cut_at, decimal, decimal_int, decimal_round_trip, format_i64, format_u64,
    int_value, is_blank, joined, joined3, next_of, owned, parse_i32, parse_i64, same, split_once,
    starts_with,
};

verus! {

/// The messengers that can be connected.
#[derive(Clone, Copy, Debug, PartialEq, Eq, Hash, Structural)]
pub enum Provider {
    Telegram,
    WhatsApp,
}

/// The outcome of a login step.
#[derive(Clone, Copy, Debug, PartialEq, Eq, Structural)]
pub enum LoginStepState {
    /// Login is complete.
    Done,
    /// The step was accepted; the next one follows.
    NextStep,
}

/// What a login step asks for.
#[derive(Clone, Debug, PartialEq, Eq)]
pub enum AuthSteps {
    Phone,
    Password,
    Code,
    /// Pairing by a code to scan; holds the code's current content.
    QrCode(String),
}

/// Identity of a chat across providers.
#[derive(Debug, Eq, Hash)]
pub enum ChatId {
    Telegram(i64),
    WhatsApp(String),
    Myself,
}

/// Model of `ChatId`.
pub ghost enum ChatIdV {
    Telegram(i64),
    WhatsApp(Seq<char>),
    Myself,
}

/// A row of the chat list.
#[derive(Debug, Eq)]
pub struct Chat {
    pub id: ChatId,
    pub contact_name: String,
    /// Time of the newest message in epoch seconds.
    pub last_message_ts: Option<i64>,
    pub status: Option<String>,
    /// Whether the chat is pinned to the top of the list.
    pub fixed: bool,
    pub scroll: usize,
    pub unread: bool,
    pub unread_count: i32,
    /// Whether the peer is a verified business.
    pub verified: bool,
}

/// Model of `Chat`.
pub ghost struct ChatV {
    pub id: ChatIdV,
    pub contact_name: Seq<char>,
    pub last_message_ts: Option<i64>,
    pub status: Option<Seq<char>>,
    pub fixed: bool,
    pub scroll: usize,
    pub unread: bool,
    pub unread_count: i32,
    pub verified: bool,
}

/// Identity of a message, as its provider writes it.
#[derive(Debug, Eq, Hash)]
pub struct MessageId(pub String);

/// The message that a reply quotes.
#[derive(Debug)]
pub struct ReplyContext {
    pub id: MessageId,
    pub sender: String,
    pub text: String,
    pub timestamp: i64,
}

/// Model of `ReplyContext`.
pub ghost struct ReplyContextV {
    pub id: Seq<char>,
    pub sender: Seq<char>,
    pub text: Seq<char>,
    pub timestamp: i64,
}

/// What the user can do with a message.
#[derive(Clone, Copy, Debug, PartialEq, Eq, Structural)]
pub enum MessageAction {
    Reply,
    Edit,
    Delete,
    /// Offered on outgoing messages that failed.
    Retry,
}

/// What kind of media a message carries.
#[derive(Debug, PartialEq, Eq)]
pub enum MediaKind {
    Image,
    /// `duration_secs` is `None` when the provider reports no length;
    /// `waveform` is an amplitude envelope on the scale 0 to 127.
    Audio { duration_secs: Option<u32>, is_voice: bool, waveform: Option<Vec<u8>> },
    Video,
    Document,
    Sticker,
    Unsupported,
}

/// Model of `MediaKind`.
pub ghost enum MediaKindV {
    Image,
    Audio { duration_secs: Option<u32>, is_voice: bool, waveform: Option<Seq<u8>> },
    Video,
    Document,
    Sticker,
    Unsupported,
}

/// The media of a message.
#[derive(Debug, PartialEq, Eq)]
pub struct MessageMedia {
    pub kind: MediaKind,
    pub caption: Option<String>,
    pub file_name: Option<String>,
}

/// Model of `MessageMedia`.
pub ghost struct MessageMediaV {
    pub kind: MediaKindV,
    pub caption: Option<Seq<char>>,
    pub file_name: Option<Seq<char>>,
}

/// A message to be sent.
#[derive(Clone, Debug, PartialEq, Eq)]
pub enum OutboundMessage {
    Text { text: String },
    Media { kind: MediaKind, data: Vec<u8>, file_name: String, caption: Option<String> },
}

/// A message of a chat.
#[derive(Debug)]
pub struct Message {
    pub message_id: MessageId,
    pub chat: ChatId,
    pub sender: String,
    /// The author's id as the provider writes it.
    pub author_id: Option<String>,
    pub text: String,
    pub timestamp: i64,
    pub from_me: bool,
    pub msg_actions: Vec<MessageAction>,
    pub media: Option<MessageMedia>,
    pub reply_to_id: Option<MessageId>,
    /// Set when this message quotes an earlier one.
    pub reply_ctx: Option<ReplyContext>,
    /// An outgoing message that awaits confirmation.
    pub pending: bool,
    /// An outgoing message that could not be sent.
    pub failed: bool,
}

/// Model of `Message`.
pub ghost struct MessageV {
    pub message_id: Seq<char>,
    pub chat: ChatIdV,
    pub sender: Seq<char>,
    pub author_id: Option<Seq<char>>,
    pub text: Seq<char>,
    pub timestamp: i64,
    pub from_me: bool,
    pub msg_actions: Seq<MessageAction>,
    pub media: Option<MessageMediaV>,
    pub reply_to_id: Option<Seq<char>>,
    pub reply_ctx: Option<ReplyContextV>,
    pub pending: bool,
    pub failed: bool,
}

/// What a provider reports.
#[derive(Clone, Debug)]
#[allow(inconsistent_fields)]
pub enum BackendEvent {
    Connected,
    Disconnected(String),
    /// The provider limits requests; the next attempt may follow after the
    /// given number of seconds.
    RateLimited { retry_after_secs: u64 },
    /// The session was revoked or has expired.
    AuthInvalid(String),
    Status(String),
    MessageReceived(Message),
    MessageUpdated(Message),
    MessageDeleted { chat: Option<ChatId>, message_ids: Vec<MessageId> },
    UnreadUpdated { chat: ChatId, unread: bool, unread_count: i32 },
    ChatUpdated(Chat),
    /// A chat was deleted on a linked device.
    ChatRemoved { chat: Chat },
    /// A complete chat list of one provider.
    ChatList(Vec<Chat>),
    QrCode(String),
    Error(String, BackendError),
}

/// Model of `BackendEvent`.
#[allow(inconsistent_fields)]
pub ghost enum BackendEventV {
    Connected,
    Disconnected(Seq<char>),
    RateLimited { retry_after_secs: u64 },
    AuthInvalid(Seq<char>),
    Status(Seq<char>),
    MessageReceived(MessageV),
    MessageUpdated(MessageV),
    MessageDeleted { chat: Option<ChatIdV>, message_ids: Seq<Seq<char>> },
    UnreadUpdated { chat: ChatIdV, unread: bool, unread_count: i32 },
    ChatUpdated(ChatV),
    ChatRemoved { chat: ChatV },
    ChatList(Seq<ChatV>),
    QrCode(Seq<char>),
    Error(Seq<char>, BackendErrorV),
}

/// Why a request to a provider failed.
#[derive(Debug, PartialEq, Eq)]
pub enum BackendError {
    NotAuthenticated,
    /// Telegram limits requests for this many seconds.
    FloodWait(u64),
    Other(String),
}

/// Model of `BackendError`.
pub ghost enum BackendErrorV {
    NotAuthenticated,
    FloodWait(u64),
    Other(Seq<char>),
}

/// The view of an optional text.
pub open spec fn opt_text(s: Option<String>) -> Option<Seq<char>> {
    match s {
        Some(t) => Some(t@),
        None => None,
    }
}

/// The view of an optional value.
pub open spec fn opt_view<T: View>(x: Option<T>) -> Option<T::V> {
    match x {
        Some(t) => Some(t@),
        None => None,
    }
}

impl View for ChatId {
    type V = ChatIdV;

    open spec fn view(&self) -> ChatIdV {
        match *self {
            ChatId::Telegram(n) => ChatIdV::Telegram(n),
            ChatId::WhatsApp(s) => ChatIdV::WhatsApp(s@),
            ChatId::Myself => ChatIdV::Myself,
        }
    }
}

impl View for Chat {
    type V = ChatV;

    open spec fn view(&self) -> ChatV {
        ChatV {
            id: self.id@,
            contact_name: self.contact_name@,
            last_message_ts: self.last_message_ts,
            status: opt_text(self.status),
            fixed: self.fixed,
            scroll: self.scroll,
            unread: self.unread,
            unread_count: self.unread_count,
            verified: self.verified,
        }
    }
}

impl View for MessageId {
    type V = Seq<char>;

    open spec fn view(&self) -> Seq<char> {
        self.0@
    }
}

impl View for ReplyContext {
    type V = ReplyContextV;

    open spec fn view(&self) -> ReplyContextV {
        ReplyContextV {
            id: self.id@,
            sender: self.sender@,
            text: self.text@,
            timestamp: self.timestamp,
        }
    }
}

impl View for MediaKind {
    type V = MediaKindV;

    open spec fn view(&self) -> MediaKindV {
        match *self {
            MediaKind::Image => MediaKindV::Image,
            MediaKind::Audio { duration_secs, is_voice, waveform } => MediaKindV::Audio {
                duration_secs,
                is_voice,
                waveform: match waveform {
                    Some(w) => Some(w@),
                    None => None,
                },
            },
            MediaKind::Video => MediaKindV::Video,
            MediaKind::Document => MediaKindV::Document,
            MediaKind::Sticker => MediaKindV::Sticker,
            MediaKind::Unsupported => MediaKindV::Unsupported,
        }
    }
}

impl View for MessageMedia {
    type V = MessageMediaV;

    open spec fn view(&self) -> MessageMediaV {
        MessageMediaV {
            kind: self.kind@,
            caption: opt_text(self.caption),
            file_name: opt_text(self.file_name),
        }
    }
}

impl View for Message {
    type V = MessageV;

    open spec fn view(&self) -> MessageV {
        MessageV {
            message_id: self.message_id@,
            chat: self.chat@,
            sender: self.sender@,
            author_id: opt_text(self.author_id),
            text: self.text@,
            timestamp: self.timestamp,
            from_me: self.from_me,
            msg_actions: self.msg_actions@,
            media: opt_view(self.media),
            reply_to_id: opt_view(self.reply_to_id),
            reply_ctx: opt_view(self.reply_ctx),
            pending: self.pending,
            failed: self.failed,
        }
    }
}

impl View for BackendError {
    type V = BackendErrorV;

    open spec fn view(&self) -> BackendErrorV {
        match *self {
            BackendError::NotAuthenticated => BackendErrorV::NotAuthenticated,
            BackendError::FloodWait(n) => BackendErrorV::FloodWait(n),
            BackendError::Other(s) => BackendErrorV::Other(s@),
        }
    }
}

impl View for BackendEvent {
    type V = BackendEventV;

    open spec fn view(&self) -> BackendEventV {
        match *self {
            BackendEvent::Connected => BackendEventV::Connected,
            BackendEvent::Disconnected(s) => BackendEventV::Disconnected(s@),
            BackendEvent::RateLimited { retry_after_secs } => BackendEventV::RateLimited {
                retry_after_secs,
            },
            BackendEvent::AuthInvalid(s) => BackendEventV::AuthInvalid(s@),
            BackendEvent::Status(s) => BackendEventV::Status(s@),
            BackendEvent::MessageReceived(m) => BackendEventV::MessageReceived(m@),
            BackendEvent::MessageUpdated(m) => BackendEventV::MessageUpdated(m@),
            BackendEvent::MessageDeleted { chat, message_ids } => BackendEventV::MessageDeleted {
                chat: opt_view(chat),
                message_ids: crate::order::seen(message_ids@),
            },
            BackendEvent::UnreadUpdated { chat, unread, unread_count } => {
                BackendEventV::UnreadUpdated { chat: chat@, unread, unread_count }
            },
            BackendEvent::ChatUpdated(c) => BackendEventV::ChatUpdated(c@),
            BackendEvent::ChatRemoved { chat } => BackendEventV::ChatRemoved { chat: chat@ },
            BackendEvent::ChatList(cs) => BackendEventV::ChatList(crate::order::seen(cs@)),
            BackendEvent::QrCode(s) => BackendEventV::QrCode(s@),
            BackendEvent::Error(s, e) => BackendEventV::Error(s@, e@),
        }
    }
}

impl Clone for ChatId {
    fn clone(&self) -> (r: Self)
        ensures
            r == *self,
    {
        match self {
            ChatId::Telegram(n) => ChatId::Telegram(*n),
            ChatId::WhatsApp(s) => ChatId::WhatsApp(s.clone()),
            ChatId::Myself => ChatId::Myself,
        }
    }
}

impl Clone for Chat {
    fn clone(&self) -> (r: Self)
        ensures
            r == *self,
    {
        Chat {
            id: self.id.clone(),
            contact_name: self.contact_name.clone(),
            last_message_ts: self.last_message_ts,
            status: self.status.clone(),
            fixed: self.fixed,
            scroll: self.scroll,
            unread: self.unread,
            unread_count: self.unread_count,
            verified: self.verified,
        }
    }
}

impl Clone for MessageId {
    fn clone(&self) -> (r: Self)
        ensures
            r == *self,
    {
        MessageId(self.0.clone())
    }
}

impl Clone for ReplyContext {
    fn clone(&self) -> (r: Self)
        ensures
            r == *self,
    {
        ReplyContext {
            id: self.id.clone(),
            sender: self.sender.clone(),
            text: self.text.clone(),
            timestamp: self.timestamp,
        }
    }
}

fn bytes_clone(v: &Vec<u8>) -> (r: Vec<u8>)
    ensures
        r@ == v@,
{
    let mut out: Vec<u8> = Vec::new();
    let mut i: usize = 0;
    while i < v.len()
        invariant
            i <= v@.len(),
            out@ == v@.take(i as int),
        decreases v@.len() - i,
    {
        out.push(v[i]);
        i += 1;
        assert(v@.take(i as int) =~= v@.take(i as int - 1).push(v@[i as int - 1]));
    }
    assert(v@.take(i as int) =~= v@);
    out
}

impl Clone for MediaKind {
    fn clone(&self) -> (r: Self)
        ensures
            r@ == self@,
    {
        match self {
            MediaKind::Image => MediaKind::Image,
            MediaKind::Audio { duration_secs, is_voice, waveform } => MediaKind::Audio {
                duration_secs: *duration_secs,
                is_voice: *is_voice,
                waveform: match waveform {
                    Some(w) => Some(bytes_clone(w)),
                    None => None,
                },
            },
            MediaKind::Video => MediaKind::Video,
            MediaKind::Document => MediaKind::Document,
            MediaKind::Sticker => MediaKind::Sticker,
            MediaKind::Unsupported => MediaKind::Unsupported,
        }
    }
}

impl Clone for MessageMedia {
    fn clone(&self) -> (r: Self)
        ensures
            r@ == self@,
    {
        MessageMedia {
            kind: self.kind.clone(),
            caption: self.caption.clone(),
            file_name: self.file_name.clone(),
        }
    }
}

fn actions_clone(v: &Vec<MessageAction>) -> (r: Vec<MessageAction>)
    ensures
        r@ == v@,
{
    let mut out: Vec<MessageAction> = Vec::new();
    let mut i: usize = 0;
    while i < v.len()
        invariant
            i <= v@.len(),
            out@ == v@.take(i as int),
        decreases v@.len() - i,
    {
        out.push(v[i]);
        i += 1;
        assert(v@.take(i as int) =~= v@.take(i as int - 1).push(v@[i as int - 1]));
    }
    assert(v@.take(i as int) =~= v@);
    out
}

impl Clone for Message {
    fn clone(&self) -> (r: Self)
        ensures
            r@ == self@,
    {
        Message {
            message_id: self.message_id.clone(),
            chat: self.chat.clone(),
            sender: self.sender.clone(),
            author_id: self.author_id.clone(),
            text: self.text.clone(),
            timestamp: self.timestamp,
            from_me: self.from_me,
            msg_actions: actions_clone(&self.msg_actions),
            media: match &self.media {
                Some(m) => Some(m.clone()),
                None => None,
            },
            reply_to_id: self.reply_to_id.clone(),
            reply_ctx: self.reply_ctx.clone(),
            pending: self.pending,
            failed: self.failed,
        }
    }
}

impl Clone for BackendError {
    fn clone(&self) -> (r: Self)
        ensures
            r == *self,
    {
        match self {
            BackendError::NotAuthenticated => BackendError::NotAuthenticated,
            BackendError::FloodWait(n) => BackendError::FloodWait(*n),
            BackendError::Other(s) => BackendError::Other(s.clone()),
        }
    }
}

impl PartialEq for ChatId {
    fn eq(&self, other: &ChatId) -> (r: bool) {
        match (self, other) {
            (ChatId::Telegram(a), ChatId::Telegram(b)) => *a == *b,
            (ChatId::WhatsApp(a), ChatId::WhatsApp(b)) => same(a.as_str(), b.as_str()),
            (ChatId::Myself, ChatId::Myself) => true,
            _ => false,
        }
    }
}

impl PartialEqSpecImpl for ChatId {
    open spec fn obeys_eq_spec() -> bool {
        true
    }

    open spec fn eq_spec(&self, other: &ChatId) -> bool {
        self@ == other@
    }
}

impl PartialEq for MessageId {
    fn eq(&self, other: &MessageId) -> (r: bool) {
        same(self.0.as_str(), other.0.as_str())
    }
}

impl PartialEqSpecImpl for MessageId {
    open spec fn obeys_eq_spec() -> bool {
        true
    }

    open spec fn eq_spec(&self, other: &MessageId) -> bool {
        self@ == other@
    }
}

/// Whether two optional texts are the same.
pub fn same_opt(a: &Option<String>, b: &Option<String>) -> (r: bool)
    ensures
        r == (opt_text(*a) == opt_text(*b)),
{
    match (a, b) {
        (Some(x), Some(y)) => same(x.as_str(), y.as_str()),
        (None, None) => true,
        _ => false,
    }
}

fn same_ts(a: Option<i64>, b: Option<i64>) -> (r: bool)
    ensures
        r == (a == b),
{
    match (a, b) {
        (Some(x), Some(y)) => x == y,
        (None, None) => true,
        _ => false,
    }
}

impl PartialEq for Chat {
    fn eq(&self, other: &Chat) -> (r: bool) {
        self.id == other.id && same(self.contact_name.as_str(), other.contact_name.as_str())
            && same_ts(self.last_message_ts, other.last_message_ts) && same_opt(
            &self.status,
            &other.status,
        ) && self.fixed == other.fixed && self.scroll == other.scroll && self.unread == other.unread
            && self.unread_count == other.unread_count && self.verified == other.verified
    }
}

impl PartialEqSpecImpl for Chat {
    open spec fn obeys_eq_spec() -> bool {
        true
    }

    open spec fn eq_spec(&self, other: &Chat) -> bool {
        self@ == other@
    }
}

impl Default for ChatId {
    fn default() -> (r: Self)
        ensures
            r@ == ChatIdV::Myself,
    {
        ChatId::Myself
    }
}

impl Default for Chat {
    fn default() -> (r: Self)
        ensures
            r@ == (ChatV {
                id: ChatIdV::Myself,
                contact_name: Seq::empty(),
                last_message_ts: None,
                status: None,
                fixed: false,
                scroll: 0,
                unread: false,
                unread_count: 0,
                verified: false,
            }),
    {
        Chat {
            id: ChatId::default(),
            contact_name: String::new(),
            last_message_ts: None,
            status: None,
            fixed: false,
            scroll: 0,
            unread: false,
            unread_count: 0,
            verified: false,
        }
    }
}

impl Default for MessageId {
    fn default() -> (r: Self)
        ensures
            r@ == Seq::<char>::empty(),
    {
        MessageId(String::new())
    }
}

impl Ranked for Chat {
    /// Pinned chats first, then the most recent message first; a chat without
    /// a message counts as the oldest.
    open spec fn rank_of(v: ChatV) -> int {
        (if v.fixed { 0int } else { 0x1_0000_0000_0000_0000int }) + (i64::MAX
            - match v.last_message_ts {
            Some(t) => t,
            None => i64::MIN,
        })
    }

    fn rank(&self) -> (r: i128) {
        let t: i64 = match self.last_message_ts {
            Some(t) => t,
            None => i64::MIN,
        };
        let base: i128 = if self.fixed { 0i128 } else { 0x1_0000_0000_0000_0000i128 };
        base + (i64::MAX as i128 - t as i128)
    }
}

impl Ranked for Message {
    /// Older messages first.
    open spec fn rank_of(v: MessageV) -> int {
        v.timestamp as int
    }

    fn rank(&self) -> (r: i128) {
        self.timestamp as i128
    }
}

/// Whether a provider is switched on.
pub open spec fn switched_on(p: Provider, c: ProvidersConfig) -> bool {
    match p {
        Provider::Telegram => c.telegram.enabled,
        Provider::WhatsApp => c.whatsapp,
    }
}

/// The settings with one provider's switch turned over.
pub open spec fn toggled(p: Provider, c: ProvidersConfig) -> ProvidersConfig {
    match p {
        Provider::Telegram => ProvidersConfig {
            telegram: crate::config::TelegramConfig {
                enabled: !c.telegram.enabled,
                ..c.telegram
            },
            ..c
        },
        Provider::WhatsApp => ProvidersConfig { whatsapp: !c.whatsapp, ..c },
    }
}

/// Turning a switch twice leaves the settings as they were, and turning one
/// provider's switch leaves the other's alone.
pub proof fn toggling_twice_is_identity(p: Provider, c: ProvidersConfig)
    ensures
        toggled(p, toggled(p, c)) == c,
        switched_on(p, toggled(p, c)) == !switched_on(p, c),
        forall|q: Provider| q != p ==> switched_on(q, toggled(p, c)) == switched_on(q, c),
{
}

impl Provider {
    /// Every provider, in display order.
    pub fn all() -> (r: Vec<Provider>)
        ensures
            r@ == seq![Provider::Telegram, Provider::WhatsApp],
    {
        vec![Provider::Telegram, Provider::WhatsApp]
    }

    pub fn name(&self) -> (r: &'static str)
        ensures
            r@ == match *self {
                Provider::Telegram => "Telegram"@,
                Provider::WhatsApp => "WhatsApp"@,
            },
    {
        match self {
            Provider::Telegram => "Telegram",
            Provider::WhatsApp => "WhatsApp",
        }
    }

    /// Whether the provider is switched on.
    pub fn is_enabled(&self, providers: &ProvidersConfig) -> (r: bool)
        ensures
            r == switched_on(*self, *providers),
    {
        match self {
            Provider::Telegram => providers.telegram.enabled,
            Provider::WhatsApp => providers.whatsapp,
        }
    }

    /// Turns the provider's switch over.
    pub fn toggle_enabled(&self, providers: &mut ProvidersConfig)
        ensures
            *final(providers) == toggled(*self, *old(providers)),
    {
        match self {
            Provider::Telegram => {
                providers.telegram.enabled = !providers.telegram.enabled;
            },
            Provider::WhatsApp => {
                providers.whatsapp = !providers.whatsapp;
            },
        }
    }

    /// Whether the settings hold what the provider needs to connect.
    pub fn has_credentials(&self, providers: &ProvidersConfig) -> (r: bool)
        ensures
            r == match *self {
                Provider::Telegram => providers.telegram.credentialed(),
                Provider::WhatsApp => true,
            },
    {
        match self {
            Provider::Telegram => providers.telegram.has_credentials(),
            Provider::WhatsApp => true,
        }
    }
}

impl AuthSteps {
    /// The step in words.
    pub fn label(&self) -> (r: &'static str)
        ensures
            r@ == match *self {
                AuthSteps::Phone => "phone"@,
                AuthSteps::Code => "code"@,
                AuthSteps::Password => "password"@,
                AuthSteps::QrCode(_) => "qr code"@,
            },
    {
        match self {
            AuthSteps::Phone => "phone",
            AuthSteps::Code => "code",
            AuthSteps::Password => "password",
            AuthSteps::QrCode(_) => "qr code",
        }
    }
}

/// A chat id written as text.
pub open spec fn id_text(id: ChatIdV) -> Seq<char> {
    match id {
        ChatIdV::Telegram(n) => "tg:"@ + decimal_int(n as int),
        ChatIdV::WhatsApp(s) => "wa:"@ + s,
        ChatIdV::Myself => "me"@,
    }
}

/// The chat id that a text denotes.
pub open spec fn id_of_text(raw: Seq<char>) -> Option<ChatIdV> {
    match cut_at(raw, ':') {
        Some((head, tail)) => if head == "tg"@ {
            match int_value(tail) {
                Some(n) => if i64::MIN <= n <= i64::MAX {
                    Some(ChatIdV::Telegram(n as i64))
                } else {
                    None
                },
                None => None,
            }
        } else if head == "wa"@ {
            Some(ChatIdV::WhatsApp(tail))
        } else {
            None
        },
        None => if raw == "me"@ {
            Some(ChatIdV::Myself)
        } else {
            None
        },
    }
}

proof fn cut_after_two(a: char, b: char, tail: Seq<char>)
    requires
        a != ':',
        b != ':',
    ensures
        cut_at(seq![a, b, ':'] + tail, ':') == Some((seq![a, b], tail)),
{
    let s = seq![a, b, ':'] + tail;
    reveal_with_fuel(next_of, 3);
    assert(s[0] == a && s[1] == b && s[2] == ':');
    assert(next_of(s, ':', 0) == 2);
    assert(s.take(2) =~= seq![a, b]);
    assert(s.skip(3) =~= tail);
}

/// Reading back a chat id that was written as text gives the same id.
pub proof fn chat_id_text_round_trip(id: ChatIdV)
    ensures
        id_of_text(id_text(id)) == Some(id),
{
    reveal_strlit("tg:");
    reveal_strlit("wa:");
    reveal_strlit("me");
    reveal_strlit("tg");
    reveal_strlit("wa");
    match id {
        ChatIdV::Telegram(n) => {
            decimal_round_trip(n as int);
            assert("tg:"@ =~= seq!['t', 'g', ':']);
            assert("tg"@ =~= seq!['t', 'g']);
            cut_after_two('t', 'g', decimal_int(n as int));
        },
        ChatIdV::WhatsApp(s) => {
            assert("wa:"@ =~= seq!['w', 'a', ':']);
            assert("wa"@ =~= seq!['w', 'a']);
            assert("wa"@[0] != "tg"@[0]);
            cut_after_two('w', 'a', s);
        },
        ChatIdV::Myself => {
            reveal_with_fuel(next_of, 3);
            assert("me"@.len() == 2);
            assert(next_of("me"@, ':', 0) == 2);
        },
    }
}

/// Two different chat ids are never written the same way.
pub proof fn chat_id_text_is_injective(a: ChatIdV, b: ChatIdV)
    requires
        id_text(a) == id_text(b),
    ensures
        a == b,
{
    chat_id_text_round_trip(a);
    chat_id_text_round_trip(b);
}

impl ChatId {
    /// The chat of a WhatsApp address: the address in its bare form, or the
    /// text itself where it is no address.
    pub fn jid_to_chat_id(data: &str) -> (r: Self)
        ensures
            r@ == ChatIdV::WhatsApp(canonical(data@)),
    {
        match JidParts::parse(data) {
            Some(jid) => ChatId::WhatsApp(jid.to_non_ad_string()),
            None => ChatId::WhatsApp(owned(data)),
        }
    }

    /// The provider of this chat.
    pub fn to_provider(&self) -> (r: Provider)
        requires
            self@ != ChatIdV::Myself,
        ensures
            r == match self@ {
                ChatIdV::Telegram(_) => Provider::Telegram,
                _ => Provider::WhatsApp,
            },
    {
        match self {
            ChatId::Telegram(_) => Provider::Telegram,
            _ => Provider::WhatsApp,
        }
    }

    /// Name of the platform this chat belongs to.
    pub fn platform(&self) -> (r: &'static str)
        ensures
            r@ == match self@ {
                ChatIdV::Telegram(_) => "Telegram"@,
                ChatIdV::WhatsApp(_) => "WhatsApp"@,
                ChatIdV::Myself => ""@,
            },
    {
        match self {
            ChatId::Telegram(_) => "Telegram",
            ChatId::WhatsApp(_) => "WhatsApp",
            ChatId::Myself => "",
        }
    }

    /// Short tag shown in the chat list.
    pub fn tag(&self) -> (r: &'static str)
        ensures
            r@ == tag_of(self@),
    {
        match self {
            ChatId::Telegram(_) => "TG",
            ChatId::WhatsApp(_) => "WA",
            ChatId::Myself => "ME",
        }
    }

    /// This id written as text.
    pub fn to_text(&self) -> (r: String)
        ensures
            r@ == id_text(self@),
    {
        match self {
            ChatId::Telegram(n) => joined("tg:", format_i64(*n).as_str()),
            ChatId::WhatsApp(s) => joined("wa:", s.as_str()),
            ChatId::Myself => owned("me"),
        }
    }

    /// The id that a text denotes.
    pub fn from_text(raw: &str) -> (r: Option<ChatId>)
        ensures
            match r {
                Some(id) => id_of_text(raw@) == Some(id@),
                None => id_of_text(raw@) is None,
            },
    {
        match split_once(raw, ':') {
            Some((head, tail)) => {
                if same(head.as_str(), "tg") {
                    match parse_i64(tail.as_str()) {
                        Some(n) => Some(ChatId::Telegram(n)),
                        None => None,
                    }
                } else if same(head.as_str(), "wa") {
                    Some(ChatId::WhatsApp(tail))
                } else {
                    None
                }
            },
            None => {
                if same(raw, "me") {
                    Some(ChatId::Myself)
                } else {
                    None
                }
            },
        }
    }
}

/// Short tag of a chat.
pub open spec fn tag_of(id: ChatIdV) -> Seq<char> {
    match id {
        ChatIdV::Telegram(_) => "TG"@,
        ChatIdV::WhatsApp(_) => "WA"@,
        ChatIdV::Myself => "ME"@,
    }
}

impl Chat {
    /// The status to show: none where it is blank.
    pub fn status_label(&self) -> (r: Option<&str>)
        ensures
            match r {
                Some(s) => self@.status == Some(s@) && !blank(s@),
                None => match self@.status {
                    Some(s) => blank(s),
                    None => true,
                },
            },
    {
        match &self.status {
            Some(s) => {
                if is_blank(s.as_str()) {
                    None
                } else {
                    Some(s.as_str())
                }
            },
            None => None,
        }
    }
}

impl MessageId {
    /// The id as the number Telegram uses; none where it is no such number.
    pub fn to_i32(&self) -> (r: Option<i32>)
        ensures
            match r {
                Some(v) => int_value(self@) == Some(v as int),
                None => match int_value(self@) {
                    Some(n) => n < i32::MIN || n > i32::MAX,
                    None => true,
                },
            },
    {
        parse_i32(self.0.as_str())
    }

    /// Whether the id belongs to an outgoing message that is not confirmed.
    pub fn is_local(&self) -> (r: bool)
        ensures
            r == begins(self@, "local-"@),
    {
        starts_with(self.0.as_str(), "local-")
    }

    /// The id as text.
    pub fn as_str(&self) -> (r: &str)
        ensures
            r@ == self@,
    {
        self.0.as_str()
    }
}

impl From<String> for MessageId {
    fn from(s: String) -> (r: Self) {
        MessageId(s)
    }
}

impl vstd::std_specs::convert::FromSpecImpl<String> for MessageId {
    open spec fn obeys_from_spec() -> bool {
        true
    }

    open spec fn from_spec(s: String) -> MessageId {
        MessageId(s)
    }
}

impl<'a> From<&'a str> for MessageId {
    fn from(s: &'a str) -> (r: Self)
        ensures
            r@ == s@,
    {
        MessageId(owned(s))
    }
}

impl<'a> vstd::std_specs::convert::FromSpecImpl<&'a str> for MessageId {
    open spec fn obeys_from_spec() -> bool {
        false
    }

    open spec fn from_spec(s: &'a str) -> MessageId {
        arbitrary()
    }
}

/// Name of a media kind.
pub open spec fn media_label(k: MediaKindV) -> Seq<char> {
    match k {
        MediaKindV::Image => "Image"@,
        MediaKindV::Audio { .. } => "Audio"@,
        MediaKindV::Video => "Video"@,
        MediaKindV::Document => "Document"@,
        MediaKindV::Sticker => "Sticker"@,
        MediaKindV::Unsupported => "Media"@,
    }
}

impl MediaKind {
    pub fn label(&self) -> (r: &'static str)
        ensures
            r@ == media_label(self@),
    {
        match self {
            MediaKind::Image => "Image",
            MediaKind::Audio { .. } => "Audio",
            MediaKind::Video => "Video",
            MediaKind::Document => "Document",
            MediaKind::Sticker => "Sticker",
            MediaKind::Unsupported => "Media",
        }
    }
}

/// The error in words.
pub open spec fn error_text(e: BackendErrorV) -> Seq<char> {
    match e {
        BackendErrorV::NotAuthenticated => "not authenticated"@,
        BackendErrorV::FloodWait(n) => "Telegram rate limited; retry after "@ + decimal(n as nat)
            + " seconds"@,
        BackendErrorV::Other(s) => "operation failed: "@ + s,
    }
}

/// What a failed Telegram request reports: whether the session was refused,
/// the server's answer where there is one, and the failure in words.
#[derive(Debug)]
pub struct TelegramFailure {
    pub authentication: bool,
    pub rpc: Option<RpcFailure>,
    pub text: String,
}

/// A refusal by the Telegram server.
#[derive(Debug)]
pub struct RpcFailure {
    pub code: i32,
    pub name: String,
    pub value: Option<u32>,
}

/// What a failed WhatsApp client call reports.
#[derive(Debug)]
pub enum ClientFailure {
    NotLoggedIn,
    NotConnected,
    Other(String),
}

/// What a failed WhatsApp send reports.
#[derive(Debug)]
pub enum SendFailure {
    NotLoggedIn,
    Client(ClientFailure),
    Other(String),
}

/// The error a WhatsApp client failure becomes.
pub open spec fn client_error(f: ClientFailure) -> BackendErrorV {
    match f {
        ClientFailure::NotLoggedIn => BackendErrorV::NotAuthenticated,
        ClientFailure::NotConnected => BackendErrorV::Other("WhatsApp: not connected"@),
        ClientFailure::Other(s) => BackendErrorV::Other("WhatsApp: "@ + s@),
    }
}

/// The error of a failed WhatsApp send.
pub open spec fn send_error(f: SendFailure) -> BackendErrorV {
    match f {
        SendFailure::NotLoggedIn => BackendErrorV::NotAuthenticated,
        SendFailure::Client(c) => client_error(c),
        SendFailure::Other(s) => BackendErrorV::Other("WhatsApp: "@ + s@),
    }
}

/// The error of a failed Telegram request.
pub open spec fn telegram_error(f: TelegramFailure) -> BackendErrorV {
    if f.authentication {
        BackendErrorV::NotAuthenticated
    } else {
        match f.rpc {
            Some(rpc) => if rpc.code == 420 && rpc.name@ == "FLOOD_WAIT"@ && rpc.value is Some {
                BackendErrorV::FloodWait(rpc.value.unwrap() as u64)
            } else {
                BackendErrorV::Other("Telegram: "@ + f.text@)
            },
            None => BackendErrorV::Other("Telegram: "@ + f.text@),
        }
    }
}

impl BackendError {
    /// The error in words.
    pub fn message(&self) -> (r: String)
        ensures
            r@ == error_text(self@),
    {
        match self {
            BackendError::NotAuthenticated => owned("not authenticated"),
            BackendError::FloodWait(n) => joined3(
                "Telegram rate limited; retry after ",
                format_u64(*n).as_str(),
                " seconds",
            ),
            BackendError::Other(s) => joined("operation failed: ", s.as_str()),
        }
    }

    /// The error of a failed Telegram request: a refused session, a wait that
    /// the server demands, or the failure in words.
    pub fn from_telegram(f: &TelegramFailure) -> (r: BackendError)
        ensures
            r@ == telegram_error(*f),
    {
        if f.authentication {
            return BackendError::NotAuthenticated;
        }
        if let Some(rpc) = &f.rpc {
            if rpc.code == 420 && same(rpc.name.as_str(), "FLOOD_WAIT") {
                if let Some(v) = rpc.value {
                    return BackendError::FloodWait(v as u64);
                }
            }
        }
        BackendError::Other(joined("Telegram: ", f.text.as_str()))
    }

    /// The error of a failed WhatsApp client call.
    pub fn from_client(f: &ClientFailure) -> (r: BackendError)
        ensures
            r@ == client_error(*f),
    {
        match f {
            ClientFailure::NotLoggedIn => BackendError::NotAuthenticated,
            ClientFailure::NotConnected => BackendError::Other(owned("WhatsApp: not connected")),
            ClientFailure::Other(s) => BackendError::Other(joined("WhatsApp: ", s.as_str())),
        }
    }

    /// The error of a failed WhatsApp send.
    pub fn from_send(f: &SendFailure) -> (r: BackendError)
        ensures
            r@ == send_error(*f),
    {
        match f {
            SendFailure::NotLoggedIn => BackendError::NotAuthenticated,
            SendFailure::Client(c) => BackendError::from_client(c),
            SendFailure::Other(s) => BackendError::Other(joined("WhatsApp: ", s.as_str())),
        }
    }
}

}
