//! The WhatsApp account: its chats and messages, and how the reports of the
//! server change them.
use vstd::prelude::*;

use crate::backend::{
    opt_text, opt_view, BackendEvent, BackendEventV, Chat, ChatId, ChatIdV, ChatV, LoginStepState,
    MediaKind, Message, MessageAction, MessageId, MessageMedia, MessageV, ReplyContext,
};
use crate::backend::whatsapp_model::{
    all_ascii, all_authors_learned, as_counter, as_time, author_learned, author_name,
    authors_learned, canonical_id, canonical_ids, conversation_name, directory_name, fold_events,
    folded_key, fresh_chat, history_of, history_synced, ingested, ingested_all, is_group, is_lid,
    is_pn, is_self, joined_messages, known_quote, larger, learned, lid_folded, lids_folded, lids_of,
    listed_conversation, listed_message, name_candidates, named_chat, named_in, new_messages,
    newest, non_blank, number_name, only_digits, own_chat, peer_chat, presence_keys_of,
    presence_text, pretty_number, preview_of, previewed, quote_in, quoted_by, rows_of_chats,
    self_named, skip_reason, snapshot, synced_conversation, synced_conversations, wa_actions,
    wa_media, wa_message, wa_quoted, web_author, web_message, web_stanza, with_directory_name,
    with_directory_names, with_identity, with_message, with_messages, with_pushnames, with_recency,
    without_chat, without_stanzas, WaV,
};
use crate::helpers::{ago, now, relative_at};
use crate::jid::{
    canonical, chat_jid_error, jid_of, jid_read, pn_address, user_base_of, JidParts,
};
use crate::order::{order, ordered, seen, Ranked};
use crate::table::{folded, key_has_entry, ChatMap, Table, TextMap, TextSet};
use crate::text::{
    ends_with, from_chars, from_range, is_blank, joined, joined3, owned, same, to_chars, views,
};
use crate::tui::chat::{chat_position, message_position};
use crate::tui::chat_model::{chat_ids, first_of, first_of_is_least, message_ids, without_message};

verus! {

/// The messages of one chat.
#[derive(Debug)]
pub struct History {
    pub messages: Vec<Message>,
}

impl View for History {
    type V = Seq<MessageV>;

    open spec fn view(&self) -> Seq<MessageV> {
        seen(self.messages@)
    }
}

/// A chat with the time of its newest message.
pub struct RecentChat {
    pub chat: Chat,
    pub recency: i64,
}

impl View for RecentChat {
    type V = (ChatV, i64);

    open spec fn view(&self) -> (ChatV, i64) {
        (self.chat@, self.recency)
    }
}

impl Ranked for RecentChat {
    /// Pinned chats first, then the most recent first.
    open spec fn rank_of(v: (ChatV, i64)) -> int {
        (if v.0.fixed { 0int } else { 0x1_0000_0000_0000_0000int }) + (i64::MAX - v.1)
    }

    fn rank(&self) -> (r: i128) {
        let base: i128 = if self.chat.fixed { 0i128 } else { 0x1_0000_0000_0000_0000i128 };
        base + (i64::MAX as i128 - self.recency as i128)
    }
}

/// That a part of a message quotes another message, and which.
#[derive(Debug)]
pub struct WaQuote {
    pub stanza_id: Option<String>,
}

/// The content of a message of the server.
#[derive(Debug)]
pub struct WaContent {
    pub image: bool,
    pub video: bool,
    pub audio: bool,
    pub sticker: bool,
    pub document: bool,
    pub caption: Option<String>,
    /// The name of the document.
    pub file_name: Option<String>,
    pub text: Option<String>,
    pub text_quote: Option<WaQuote>,
    pub image_quote: Option<WaQuote>,
    pub video_quote: Option<WaQuote>,
    pub document_quote: Option<WaQuote>,
}

/// Who wrote a message of the server, and when.
#[derive(Debug)]
pub struct WaInfo {
    pub id: String,
    pub sender: JidParts,
    pub push_name: String,
    pub timestamp: i64,
    pub from_me: bool,
}

/// A message of the server.
#[derive(Debug)]
pub struct WaInbound {
    /// The address of the chat, in full.
    pub chat: String,
    /// Whether it went to everyone's status.
    pub broadcast: bool,
    pub info: WaInfo,
    pub content: WaContent,
}

/// The key of a message in a history sync.
#[derive(Debug)]
pub struct WaKey {
    pub id: Option<String>,
    pub from_me: Option<bool>,
    pub participant: Option<String>,
}

/// A message in a history sync.
#[derive(Debug)]
pub struct WaWebMessage {
    pub key: Option<WaKey>,
    pub message: Option<WaContent>,
    pub timestamp: Option<u64>,
    pub push_name: Option<String>,
}

/// A conversation in a history sync.
#[derive(Debug)]
pub struct WaConversation {
    pub id: String,
    pub name: Option<String>,
    pub display_name: Option<String>,
    /// The peer's phone address, where the conversation is under another one.
    pub pn_jid: Option<String>,
    pub unread_count: Option<u32>,
    pub pinned: Option<u32>,
    pub conversation_timestamp: Option<u64>,
    pub is_parent_group: Option<bool>,
    pub is_marketing_message_thread: Option<bool>,
    pub pnh_duplicate_lid_thread: Option<bool>,
    pub suspended: Option<bool>,
    pub terminated: Option<bool>,
    pub read_only: Option<bool>,
    pub messages: Vec<Option<WaWebMessage>>,
}

/// A push name in a history sync.
#[derive(Debug)]
pub struct WaPushname {
    pub id: Option<String>,
    pub pushname: Option<String>,
}

/// A history sync.
#[derive(Debug)]
pub struct WaHistorySync {
    pub conversations: Vec<WaConversation>,
    pub pushnames: Vec<WaPushname>,
}

/// An answer of the directory about a peer.
#[derive(Debug)]
pub struct UsyncResult {
    pub jid: JidParts,
    pub pn_jid: Option<JidParts>,
    pub username: Option<String>,
    /// The verified profile and the name on it.
    pub verified_name: Option<Option<String>>,
    pub is_business: bool,
}

/// The chats and messages of a WhatsApp account.
#[derive(Debug)]
pub struct WhatsAppState {
    pub enabled: bool,
    pub chats: Vec<Chat>,
    /// A line that sums up each chat.
    pub previews: ChatMap<String>,
    pub history: ChatMap<History>,
    /// The chat and the message that each stanza became.
    pub by_stanza_id: TextMap<(ChatId, MessageId)>,
    pub pushnames: TextMap<String>,
    /// Names learned from the directory.
    pub usync_names: TextMap<String>,
    pub usync_verified: TextSet,
    pub usync_attempted: TextSet,
    /// When the first history sync arrived.
    pub sync_seen_at: Option<i64>,
    /// The phone number behind each opaque identity.
    pub lid_pn: TextMap<String>,
    pub presence: TextMap<(bool, Option<i64>)>,
    pub own_lid: Option<String>,
    pub own_pn: Option<String>,
}

impl View for WhatsAppState {
    type V = WaV;

    open spec fn view(&self) -> WaV {
        WaV {
            enabled: self.enabled,
            chats: seen(self.chats@),
            previews: self.previews@,
            history: self.history@,
            stanzas: self.by_stanza_id@,
            pushnames: self.pushnames@,
            usync_names: self.usync_names@,
            usync_verified: self.usync_verified@,
            usync_attempted: self.usync_attempted@,
            sync_seen_at: self.sync_seen_at,
            lid_pn: self.lid_pn@,
            presence: self.presence@,
            own_lid: opt_text(self.own_lid),
            own_pn: opt_text(self.own_pn),
        }
    }
}

/// An account that is switched off and of which nothing is known.
pub open spec fn empty_account() -> WaV {
    WaV {
        enabled: false,
        chats: Seq::empty(),
        previews: Map::empty(),
        history: Map::empty(),
        stanzas: Map::empty(),
        pushnames: Map::empty(),
        usync_names: Map::empty(),
        usync_verified: Map::empty(),
        usync_attempted: Map::empty(),
        sync_seen_at: None,
        lid_pn: Map::empty(),
        presence: Map::empty(),
        own_lid: None,
        own_pn: None,
    }
}

impl Default for WhatsAppState {
    fn default() -> (r: Self)
        ensures
            r@ == empty_account(),
    {
        let r = WhatsAppState {
            enabled: false,
            chats: Vec::new(),
            previews: Table::new(),
            history: Table::new(),
            by_stanza_id: Table::new(),
            pushnames: Table::new(),
            usync_names: Table::new(),
            usync_verified: Table::new(),
            usync_attempted: Table::new(),
            sync_seen_at: None,
            lid_pn: Table::new(),
            presence: Table::new(),
            own_lid: None,
            own_pn: None,
        };
        assert(r@.chats =~= Seq::<ChatV>::empty());
        r
    }
}

/// What can be done with a message of the account.
pub fn message_actions(from_me: bool) -> (r: Vec<MessageAction>)
    ensures
        r@ == wa_actions(from_me),
{
    let mut actions: Vec<MessageAction> = Vec::new();
    actions.push(MessageAction::Reply);
    if from_me {
        actions.push(MessageAction::Edit);
        actions.push(MessageAction::Delete);
    }
    assert(actions@ =~= wa_actions(from_me));
    actions
}

fn is_text(a: &Option<String>, b: &str) -> (r: bool)
    ensures
        r == (opt_text(*a) == Some(b@)),
{
    match a {
        Some(x) => same(x.as_str(), b),
        None => false,
    }
}

/// The chat of a message, given the account's own addresses.
pub fn own_chat_id(
    own_lid: &Option<String>,
    own_pn: &Option<String>,
    chat: ChatId,
    from_me: bool,
) -> (r: ChatId)
    ensures
        r@ == own_chat(opt_text(*own_lid), opt_text(*own_pn), chat@, from_me),
{
    if !from_me {
        return chat;
    }
    let own: bool = match &chat {
        ChatId::WhatsApp(raw) => is_text(own_lid, raw.as_str()),
        _ => false,
    };
    if own {
        if let Some(pn) = own_pn {
            return ChatId::WhatsApp(pn.clone());
        }
    }
    chat
}

/// Whether a chat is the user's chat with themselves.
pub fn is_self_chat(chat: &ChatId, own_lid: &Option<String>, own_pn: &Option<String>) -> (r: bool)
    ensures
        r == is_self(chat@, opt_text(*own_lid), opt_text(*own_pn)),
{
    match chat {
        ChatId::WhatsApp(raw) => is_text(own_lid, raw.as_str()) || is_text(own_pn, raw.as_str()),
        _ => false,
    }
}

/// The chat of a phone number.
pub fn pn_chat_id(pn_user: &str) -> (r: ChatId)
    ensures
        r@ == ChatIdV::WhatsApp(pn_address(pn_user@)),
{
    ChatId::WhatsApp(JidParts::pn(pn_user).to_non_ad_string())
}

proof fn ids_contain_iff(s: Seq<ChatV>, id: ChatIdV)
    ensures
        chat_ids(s).contains(id) <==> first_of(chat_ids(s), id) is Some,
{
    first_of_is_least(chat_ids(s), id);
    if first_of(chat_ids(s), id) is Some {
        assert(chat_ids(s)[first_of(chat_ids(s), id).unwrap()] == id);
    }
}

proof fn message_ids_contain_iff(s: Seq<MessageV>, id: Seq<char>)
    ensures
        message_ids(s).contains(id) <==> first_of(message_ids(s), id) is Some,
{
    first_of_is_least(message_ids(s), id);
    if first_of(message_ids(s), id) is Some {
        assert(message_ids(s)[first_of(message_ids(s), id).unwrap()] == id);
    }
}

fn has_chat(chats: &Vec<Chat>, id: &ChatId) -> (r: bool)
    ensures
        r == chat_ids(seen(chats@)).contains(id@),
{
    proof {
        ids_contain_iff(seen(chats@), id@);
    }
    chat_position(chats, id).is_some()
}

/// The media of a message.
pub fn handle_wa_media(c: &WaContent) -> (r: Option<MessageMedia>)
    ensures
        opt_view(r) == wa_media(*c),
{
    let kind: MediaKind = if c.image {
        MediaKind::Image
    } else if c.video {
        MediaKind::Video
    } else if c.audio {
        MediaKind::Audio { duration_secs: None, is_voice: false, waveform: None }
    } else if c.sticker {
        MediaKind::Sticker
    } else if c.document {
        MediaKind::Document
    } else {
        return None;
    };
    Some(MessageMedia { kind, caption: c.caption.clone(), file_name: c.file_name.clone() })
}

/// The stanza of the message that a message quotes.
pub fn reply_stanza_id(c: &WaContent) -> (r: Option<String>)
    ensures
        opt_text(r) == wa_quoted(*c),
{
    let quote: &Option<WaQuote> = if c.text_quote.is_some() {
        &c.text_quote
    } else if c.image_quote.is_some() {
        &c.image_quote
    } else if c.video_quote.is_some() {
        &c.video_quote
    } else {
        &c.document_quote
    };
    match quote {
        Some(q) => q.stanza_id.clone(),
        None => None,
    }
}

/// A phone number as it is shown.
pub fn format_pn(pn: &str) -> (r: String)
    ensures
        r@ == pretty_number(pn@),
{
    let x: Vec<char> = to_chars(pn);
    let mut d: Vec<char> = Vec::new();
    let mut i: usize = 0;
    assert(d@ =~= only_digits(x@.take(0)));
    while i < x.len()
        invariant
            i <= x@.len(),
            d@ == only_digits(x@.take(i as int)),
        decreases x@.len() - i,
    {
        assert(x@.take(i as int + 1).drop_last() =~= x@.take(i as int));
        let n: u32 = x[i] as u32;
        if 0x30 <= n && n <= 0x39 {
            d.push(x[i]);
        }
        i += 1;
    }
    assert(x@.take(i as int) =~= x@);
    let n: usize = d.len();
    if n < 8 {
        return joined("+", from_chars(&d).as_str());
    }
    let cc: String = from_range(&d, 0, 2);
    let area: String = from_range(&d, 2, 4);
    let prefix: String = from_range(&d, 4, n - 4);
    let suffix: String = from_range(&d, n - 4, n);
    proof {
        assert(d@.subrange(0, 2) =~= d@.take(2));
        assert(d@.subrange(n - 4, n as int) =~= d@.skip(n - 4));
    }
    let head: String = joined3("+", cc.as_str(), " ");
    let mid: String = joined3(head.as_str(), area.as_str(), " ");
    joined3(joined(mid.as_str(), prefix.as_str()).as_str(), "-", suffix.as_str())
}

fn name_for(m: &TextMap<String>, key: &String) -> (r: Option<String>)
    ensures
        opt_text(r) == named_in(m@, key@),
{
    match m.get(key) {
        Some(n) => {
            if is_blank(n.as_str()) {
                None
            } else {
                Some(n.clone())
            }
        },
        None => None,
    }
}

/// The name of a phone number.
pub fn name_from_lid_pn(pn_user: &str, pushnames: &TextMap<String>) -> (r: String)
    ensures
        r@ == number_name(pn_user@, pushnames@),
{
    let key: String = JidParts::pn(pn_user).to_non_ad_string();
    match name_for(pushnames, &key) {
        Some(n) => n,
        None => format_pn(pn_user),
    }
}

/// The name of an author.
pub fn resolve_sender_name(
    push_name: &str,
    sender: &JidParts,
    pushnames: &TextMap<String>,
    lid_pn: &TextMap<String>,
) -> (r: String)
    ensures
        r@ == author_name(push_name@, sender.parts(), pushnames@, lid_pn@),
{
    if !is_blank(push_name) {
        return owned(push_name);
    }
    let key: String = sender.to_non_ad_string();
    if let Some(n) = name_for(pushnames, &key) {
        return n;
    }
    let base: String = sender.user_base();
    if sender.is_lid() {
        if let Some(pn) = lid_pn.get(&base) {
            return name_from_lid_pn(pn.as_str(), pushnames);
        }
    }
    let some: bool = to_chars(base.as_str()).len() > 0;
    if some {
        base
    } else {
        owned("Unknown")
    }
}

fn said(s: &Option<String>) -> (r: Option<String>)
    ensures
        opt_text(r) == non_blank(opt_text(*s)),
{
    match s {
        Some(t) => {
            if is_blank(t.as_str()) {
                None
            } else {
                Some(t.clone())
            }
        },
        None => None,
    }
}

/// The name of a conversation, and whether its peer is a verified business.
pub fn resolve_conversation_name(
    conv: &WaConversation,
    pushnames: &TextMap<String>,
    usync_names: &TextMap<String>,
    usync_verified: &TextSet,
) -> (r: (String, bool))
    ensures
        (r.0@, r.1) == conversation_name(*conv, pushnames@, usync_names@, usync_verified@),
{
    let own: Option<JidParts> = JidParts::parse(conv.id.as_str());
    let group: bool = match &own {
        Some(jid) => jid.is_group(),
        None => false,
    };
    let name: Option<String> = said(&conv.name);
    if group {
        return match name {
            Some(n) => (n, false),
            None => (conv.id.clone(), false),
        };
    }
    let pn_key: String = match said(&conv.pn_jid) {
        Some(k) => k,
        None => conv.id.clone(),
    };
    if let Some(n) = name {
        return (n, false);
    }
    if let Some(n) = said(&conv.display_name) {
        return (n, false);
    }
    if let Some(n) = name_for(pushnames, &pn_key) {
        return (n, false);
    }
    if let Some(n) = name_for(usync_names, &pn_key) {
        return (n, usync_verified.contains_key(&pn_key));
    }
    if let Some(jid) = JidParts::parse(pn_key.as_str()) {
        if jid.is_pn() {
            return (format_pn(jid.user_base().as_str()), false);
        }
    }
    if let Some(jid) = own {
        let base: String = jid.user_base();
        let some: bool = to_chars(base.as_str()).len() > 0;
        if some {
            return (base, false);
        }
    }
    (conv.id.clone(), false)
}

/// A line that sums up a message.
pub fn preview_line(sender: &str, text: &str, from_me: bool) -> (r: String)
    ensures
        r@ == preview_of(sender@, text@, from_me),
{
    if from_me {
        joined("You: ", text)
    } else {
        joined3(sender, ": ", text)
    }
}

fn is_true(b: Option<bool>) -> (r: bool)
    ensures
        r == (b == Some(true)),
{
    match b {
        Some(x) => x,
        None => false,
    }
}

/// Why a conversation is no chat; none where it is one.
pub fn should_skip_conversation(conv: &WaConversation) -> (r: Option<&'static str>)
    ensures
        crate::config::text_of(r) == skip_reason(*conv),
{
    if is_true(conv.is_parent_group) {
        return Some("parent community group (no direct chat)");
    }
    if is_true(conv.is_marketing_message_thread) {
        return Some("marketing message thread");
    }
    if is_true(conv.pnh_duplicate_lid_thread) {
        return Some("pnh duplicate lid thread");
    }
    if is_true(conv.suspended) {
        return Some("suspended conversation");
    }
    if is_true(conv.terminated) {
        return Some("terminated conversation");
    }
    if is_true(conv.read_only) {
        return Some("read-only (left/declined) conversation");
    }
    if ends_with(conv.id.as_str(), "@lid") && conv.pn_jid.is_none()
        && conv.conversation_timestamp.is_none() && conv.unread_count.is_none() {
        return Some("lid chat never started (ghost row)");
    }
    None
}

/// How long ago a time was.
pub fn relative_time(unix_seconds: i64) -> (r: String)
    ensures
        exists|t: i64| 0 <= t && r@ == #[trigger] ago(t as int, unix_seconds as int),
{
    crate::helpers::relative(unix_seconds)
}

/// The presence of a peer in words, at a given time.
pub fn presence_label_at(online: bool, last_seen: Option<i64>, at: i64) -> (r: Option<String>)
    ensures
        opt_text(r) == presence_text(online, last_seen, at as int),
{
    if online {
        Some(owned("online"))
    } else {
        match last_seen {
            Some(ts) => Some(joined("last seen ", relative_at(at, ts).as_str())),
            None => None,
        }
    }
}

/// The presence of a peer in words.
pub fn presence_label(online: bool, last_seen: Option<i64>) -> (r: Option<String>)
    ensures
        exists|t: i64|
            0 <= t && opt_text(r) == #[trigger] presence_text(online, last_seen, t as int),
{
    let t: i64 = now();
    let r: Option<String> = presence_label_at(online, last_seen, t);
    assert(opt_text(r) == presence_text(online, last_seen, t as int));
    r
}

fn newest_of(h: &Vec<Message>) -> (r: Option<usize>)
    ensures
        match r {
            Some(i) => i < h@.len() && newest(seen(h@)) == Some(h@[i as int]@),
            None => newest(seen(h@)) is None,
        },
{
    let ghost all = seen(h@);
    let mut best: Option<usize> = None;
    let mut i: usize = 0;
    assert(all.take(0) =~= Seq::<MessageV>::empty());
    while i < h.len()
        invariant
            i <= h@.len(),
            all == seen(h@),
            match best {
                Some(b) => b < i && newest(all.take(i as int)) == Some(h@[b as int]@),
                None => newest(all.take(i as int)) is None,
            },
        decreases h@.len() - i,
    {
        assert(all.take(i as int + 1).drop_last() =~= all.take(i as int));
        assert(all[i as int] == h@[i as int]@);
        match best {
            Some(b) => {
                if h[i].timestamp >= h[b].timestamp {
                    best = Some(i);
                }
            },
            None => {
                best = Some(i);
            },
        }
        i += 1;
    }
    assert(all.take(i as int) =~= all);
    best
}

fn quote_of(messages: &Vec<Message>, id: &MessageId) -> (r: Option<ReplyContext>)
    ensures
        opt_view(r) == quote_in(seen(messages@), id@),
{
    match message_position(messages, id) {
        Some(i) => {
            assert(seen(messages@)[i as int] == messages@[i as int]@);
            Some(
                ReplyContext {
                    id: messages[i].message_id.clone(),
                    sender: messages[i].sender.clone(),
                    text: messages[i].text.clone(),
                    timestamp: messages[i].timestamp,
                },
            )
        },
        None => None,
    }
}

/// The text of a message with media: its caption, else its kind.
fn media_text(media: &MessageMedia) -> (r: String)
    ensures
        r@ == match non_blank(media@.caption) {
            Some(t) => t,
            None => crate::backend::media_label(media@.kind) + ", click to show"@,
        },
{
    match said(&media.caption) {
        Some(t) => t,
        None => joined(media.kind.label(), ", click to show"),
    }
}

/// A message of the server as a message of a chat.
pub fn to_senders_msg(chat: ChatId, info: &WaInfo, content: &WaContent, state: &WhatsAppState) -> (r:
    Message)
    ensures
        r@ == wa_message(chat@, *info, *content, state@),
{
    let sender: String = if info.from_me {
        owned("You")
    } else {
        resolve_sender_name(
            info.push_name.as_str(),
            &info.sender,
            &state.pushnames,
            &state.lid_pn,
        )
    };
    let media: Option<MessageMedia> = handle_wa_media(content);
    let text: String = match &media {
        Some(m) => media_text(m),
        None => match &content.text {
            Some(t) => t.clone(),
            None => owned(""),
        },
    };
    let reply: Option<String> = reply_stanza_id(content);
    let reply_ctx: Option<ReplyContext> = match &reply {
        Some(id) => state.quote_by_stanza(id),
        None => None,
    };
    let reply_to_id: Option<MessageId> = match reply {
        Some(id) => Some(MessageId(id)),
        None => None,
    };
    let r = Message {
        message_id: MessageId(info.id.clone()),
        chat,
        sender,
        author_id: Some(info.sender.full.clone()),
        text,
        timestamp: info.timestamp,
        from_me: info.from_me,
        msg_actions: message_actions(info.from_me),
        media,
        reply_to_id,
        reply_ctx,
        pending: false,
        failed: false,
    };
    r
}

/// The largest of two counters.
fn max_i32(a: i32, b: i32) -> (r: i32)
    ensures
        r == larger(a, b),
{
    if a > b { a } else { b }
}

fn counter(n: Option<u32>) -> (r: i32)
    ensures
        r == as_counter(n),
{
    match n {
        Some(v) => {
            if v < 0x8000_0000 {
                v as i32
            } else {
                (v as i64 - 0x1_0000_0000i64) as i32
            }
        },
        None => 0,
    }
}

fn time_of(t: Option<u64>, now: i64) -> (r: i64)
    ensures
        r == as_time(t, now),
{
    match t {
        Some(v) => {
            if v < 0x8000_0000_0000_0000 {
                v as i64
            } else {
                (v as i128 - 0x1_0000_0000_0000_0000i128) as i64
            }
        },
        None => now,
    }
}

fn new_chat(
    id: ChatId,
    name: String,
    unread: bool,
    unread_count: i32,
    fixed: bool,
    verified: bool,
) -> (r: Chat)
    ensures
        r@ == fresh_chat(id@, name@, unread, unread_count, fixed, verified),
{
    Chat {
        id,
        contact_name: name,
        last_message_ts: None,
        status: None,
        fixed,
        scroll: 0,
        unread,
        unread_count,
        verified,
    }
}

impl WhatsAppState {
    fn quote_by_stanza(&self, id: &String) -> (r: Option<ReplyContext>)
        ensures
            opt_view(r) == known_quote(self@, id@),
    {
        match self.by_stanza_id.get(id) {
            Some(entry) => match self.history.get(&entry.0) {
                Some(h) => quote_of(&h.messages, &MessageId(id.clone())),
                None => None,
            },
            None => None,
        }
    }

    /// The chat under an address.
    pub fn fold_lid_key(&self, key: &str) -> (r: ChatId)
        ensures
            r@ == folded_key(key@, self@),
    {
        if let Some(jid) = JidParts::parse(key) {
            if jid.is_lid() {
                if let Some(pn) = self.lid_pn.get(&jid.user_base()) {
                    let chat: ChatId = pn_chat_id(pn.as_str());
                    if has_chat(&self.chats, &chat) {
                        return chat;
                    }
                }
            }
        }
        ChatId::WhatsApp(owned(key))
    }

    /// Keeps the phone number behind an opaque identity, where it was looked
    /// up and was not known.
    pub fn learn_lid_pn(&mut self, sender: &JidParts, found: &TextMap<String>)
        ensures
            final(self)@ == learned(old(self)@, sender.parts(), found@),
    {
        if !sender.is_lid() {
            return;
        }
        let base: String = sender.user_base();
        if self.lid_pn.contains_key(&base) {
            return;
        }
        if let Some(pn) = found.get(&base) {
            self.lid_pn.insert(base, pn.clone());
        }
    }

    /// The chat that a chat id stands for. `found` is what is known of the
    /// phone numbers behind opaque identities.
    pub fn canonical_chat_id(&mut self, chat: ChatId, found: &TextMap<String>) -> (r: ChatId)
        ensures
            (final(self)@, r@) == canonical_id(old(self)@, chat@, found@),
    {
        let raw: String = match &chat {
            ChatId::WhatsApp(raw) => raw.clone(),
            _ => {
                return chat;
            },
        };
        let jid: JidParts = match JidParts::parse(raw.as_str()) {
            Some(jid) => jid,
            None => {
                return chat;
            },
        };
        if !jid.is_lid() {
            return chat;
        }
        self.learn_lid_pn(&jid, found);
        if self.lid_pn.contains_key(&jid.user_base()) {
            self.fold_lid_key(raw.as_str())
        } else {
            chat
        }
    }

    /// Remembers the account's own addresses and names its chat with itself.
    pub fn learn_own_identity(&mut self, lid: Option<String>, pn: Option<String>)
        ensures
            final(self)@ == with_identity(old(self)@, opt_text(lid), opt_text(pn)),
    {
        self.own_lid = lid;
        self.own_pn = pn;
        self.name_self_chats();
    }

    /// Names the account's chat with itself.
    pub fn name_self_chats(&mut self)
        ensures
            final(self)@ == self_named(old(self)@),
    {
        let ghost st = self@;
        let ghost all = self_named(st).chats;
        let n: usize = self.chats.len();
        let mut i: usize = 0;
        assert(seen(self.chats@) =~= all.take(0) + st.chats.skip(0));
        while i < n
            invariant
                i <= n,
                n == st.chats.len(),
                self.chats@.len() == n,
                all == self_named(st).chats,
                st == old(self)@,
                self@ == (WaV { chats: all.take(i as int) + st.chats.skip(i as int), ..st }),
            decreases n - i,
        {
            let ghost before = self.chats@;
            assert(seen(before)[i as int] == before[i as int]@);
            assert((all.take(i as int) + st.chats.skip(i as int))[i as int] == st.chats[i as int]);
            if is_self_chat(&self.chats[i].id, &self.own_lid, &self.own_pn) {
                let mut c: Chat = self.chats[i].clone();
                c.contact_name = owned("Myself");
                c.verified = false;
                let ghost cv = c@;
                self.chats.set(i, c);
                assert(seen(self.chats@) =~= seen(before).update(i as int, cv));
            }
            assert(seen(self.chats@) =~= all.take(i as int + 1) + st.chats.skip(i as int + 1));
            i += 1;
        }
        assert(all.take(n as int) + st.chats.skip(n as int) =~= all);
    }

    fn set_row(&mut self, i: usize, row: Chat)
        requires
            i < old(self).chats@.len(),
        ensures
            final(self)@ == (WaV { chats: old(self)@.chats.update(i as int, row@), ..old(self)@ }),
    {
        let ghost before = self.chats@;
        let ghost rv = row@;
        self.chats.set(i, row);
        assert(seen(self.chats@) =~= seen(before).update(i as int, rv));
    }

    fn add_row(&mut self, row: Chat)
        ensures
            final(self)@ == (WaV { chats: old(self)@.chats.push(row@), ..old(self)@ }),
    {
        let ghost before = self.chats@;
        let ghost rv = row@;
        self.chats.push(row);
        assert(seen(self.chats@) =~= seen(before).push(rv));
    }

    /// Brings the chat list up to date with a message.
    pub fn upsert_chat_from_message(&mut self, chat: ChatId, msg: &Message)
        ensures
            final(self)@ == listed_message(old(self)@, chat@, msg@),
    {
        let own: bool = is_self_chat(&chat, &self.own_lid, &self.own_pn);
        let preview: String = preview_line(msg.sender.as_str(), msg.text.as_str(), msg.from_me);
        self.previews.insert(chat.clone(), preview);
        match chat_position(&self.chats, &chat) {
            Some(i) => {
                assert(seen(self.chats@)[i as int] == self.chats@[i as int]@);
                let mut row: Chat = self.chats[i].clone();
                if own {
                    row.contact_name = owned("Myself");
                    row.verified = false;
                }
                if !msg.from_me {
                    row.unread = true;
                    row.unread_count = if row.unread_count < i32::MAX { row.unread_count + 1 } else {
                        row.unread_count
                    };
                }
                self.set_row(i, row);
            },
            None => {
                let sender: String = if msg.from_me {
                    if own { owned("Myself") } else { owned("You") }
                } else {
                    msg.sender.clone()
                };
                let nobody: bool = to_chars(sender.as_str()).len() == 0;
                let name: String = if nobody || same(sender.as_str(), "Unknown") {
                    match &chat {
                        ChatId::WhatsApp(raw) => match JidParts::parse(raw.as_str()) {
                            Some(jid) => jid.user_base(),
                            None => raw.clone(),
                        },
                        _ => owned("Unknown"),
                    }
                } else {
                    sender
                };
                self.add_row(
                    new_chat(
                        chat,
                        name,
                        !msg.from_me,
                        if msg.from_me { 0 } else { 1 },
                        false,
                        false,
                    ),
                );
            },
        }
    }

    /// Brings the chat list up to date with a conversation.
    pub fn upsert_conversation(&mut self, conv: &WaConversation, chat: ChatId)
        ensures
            final(self)@ == listed_conversation(old(self)@, *conv, chat@),
    {
        if should_skip_conversation(conv).is_some() {
            return;
        }
        let (name, verified): (String, bool) = if is_self_chat(
            &chat,
            &self.own_lid,
            &self.own_pn,
        ) {
            (owned("Myself"), false)
        } else {
            resolve_conversation_name(
                conv,
                &self.pushnames,
                &self.usync_names,
                &self.usync_verified,
            )
        };
        let unread: i32 = counter(conv.unread_count);
        let fixed: bool = match conv.pinned {
            Some(p) => p > 0,
            None => false,
        };
        let keep: bool = same(name.as_str(), conv.id.as_str());
        match chat_position(&self.chats, &chat) {
            Some(i) => {
                assert(seen(self.chats@)[i as int] == self.chats@[i as int]@);
                let mut row: Chat = self.chats[i].clone();
                if !keep {
                    row.contact_name = name;
                    row.verified = verified;
                }
                row.unread_count = max_i32(
                    max_i32(unread, row.unread_count),
                    if row.unread { 1 } else { 0 },
                );
                row.unread = unread > 0 || row.unread;
                row.fixed = fixed;
                self.set_row(i, row);
            },
            None => {
                self.previews.remove(&chat);
                self.add_row(new_chat(chat, name, unread > 0, unread, fixed, verified));
            },
        }
    }

    /// Works the line that sums up a chat out anew.
    pub fn refresh_preview(&mut self, chat: &ChatId)
        ensures
            final(self)@ == previewed(old(self)@, chat@),
    {
        if !has_chat(&self.chats, chat) {
            return;
        }
        let preview: Option<String> = match self.history.get(chat) {
            Some(h) => match newest_of(&h.messages) {
                Some(i) => Some(
                    preview_line(
                        h.messages[i].sender.as_str(),
                        h.messages[i].text.as_str(),
                        h.messages[i].from_me,
                    ),
                ),
                None => None,
            },
            None => None,
        };
        match preview {
            Some(p) => self.previews.insert(chat.clone(), p),
            None => self.previews.remove(chat),
        }
    }

    fn knows_message(&self, chat: &ChatId, id: &MessageId) -> (r: bool)
        ensures
            r == message_ids(history_of(self@, chat@)).contains(id@),
    {
        proof {
            message_ids_contain_iff(history_of(self@, chat@), id@);
        }
        match self.history.get(chat) {
            Some(h) => message_position(&h.messages, id).is_some(),
            None => {
                assert(history_of(self@, chat@) =~= Seq::<MessageV>::empty());
                false
            },
        }
    }

    fn copy_history(&self, chat: &ChatId) -> (r: Vec<Message>)
        ensures
            seen(r@) == history_of(self@, chat@),
    {
        let mut out: Vec<Message> = Vec::new();
        match self.history.get(chat) {
            Some(h) => {
                let ghost all = seen(h.messages@);
                let mut i: usize = 0;
                assert(seen(out@) =~= all.take(0));
                while i < h.messages.len()
                    invariant
                        i <= h.messages@.len(),
                        all == seen(h.messages@),
                        seen(out@) == all.take(i as int),
                    decreases h.messages@.len() - i,
                {
                    let ghost before = out@;
                    out.push(h.messages[i].clone());
                    assert(seen(out@) =~= seen(before).push(all[i as int]));
                    assert(all.take(i as int + 1) =~= all.take(i as int).push(all[i as int]));
                    i += 1;
                }
                assert(all.take(i as int) =~= all);
            },
            None => {
                assert(seen(out@) =~= Seq::<MessageV>::empty());
            },
        }
        out
    }

    fn add_message(&mut self, chat: &ChatId, m: Message)
        ensures
            final(self)@ == with_message(old(self)@, chat@, m@),
    {
        let mut h: Vec<Message> = self.copy_history(chat);
        let ghost before = h@;
        let ghost mv = m@;
        h.push(m);
        assert(seen(h@) =~= seen(before).push(mv));
        self.history.insert(chat.clone(), History { messages: h });
    }

    /// Takes in one message of the server. Returns it as a message of a chat,
    /// where it is to be reported.
    pub fn ingest(&mut self, inbound: &WaInbound, found: &TextMap<String>) -> (r: Option<Message>)
        ensures
            (final(self)@, opt_view(r)) == ingested(old(self)@, *inbound, found@),
    {
        if inbound.broadcast {
            return None;
        }
        let chat0: ChatId = own_chat_id(
            &self.own_lid,
            &self.own_pn,
            ChatId::jid_to_chat_id(inbound.chat.as_str()),
            inbound.info.from_me,
        );
        let chat: ChatId = self.canonical_chat_id(chat0, found);
        if !inbound.info.from_me {
            self.learn_lid_pn(&inbound.info.sender, found);
        }
        let msg: Message = to_senders_msg(chat.clone(), &inbound.info, &inbound.content, self);
        let silent: bool = to_chars(msg.text.as_str()).len() == 0 && msg.media.is_none();
        if silent {
            return None;
        }
        self.by_stanza_id.insert(
            inbound.info.id.clone(),
            (chat.clone(), msg.message_id.clone()),
        );
        if !self.knows_message(&chat, &msg.message_id) {
            self.add_message(&chat, msg.clone());
        }
        self.upsert_chat_from_message(chat, &msg);
        Some(msg)
    }

    /// Takes in a batch of messages. Returns those to be reported.
    pub fn ingest_batch(&mut self, batch: &Vec<WaInbound>, found: &TextMap<String>) -> (r: Vec<
        Message,
    >)
        ensures
            (final(self)@, seen(r@)) == ingested_all(old(self)@, batch@, found@),
    {
        let mut out: Vec<Message> = Vec::new();
        let mut i: usize = 0;
        assert(seen(out@) =~= Seq::<MessageV>::empty());
        assert(batch@.take(0) =~= Seq::<WaInbound>::empty());
        while i < batch.len()
            invariant
                i <= batch@.len(),
                (self@, seen(out@)) == ingested_all(old(self)@, batch@.take(i as int), found@),
            decreases batch@.len() - i,
        {
            assert(batch@.take(i as int + 1).drop_last() =~= batch@.take(i as int));
            let ghost before = out@;
            if let Some(m) = self.ingest(&batch[i], found) {
                let ghost mv = m@;
                out.push(m);
                assert(seen(out@) =~= seen(before).push(mv));
            }
            i += 1;
        }
        assert(batch@.take(i as int) =~= batch@);
        out
    }

    fn forget_stanzas(&mut self, chat: &ChatId)
        ensures
            final(self)@ == (WaV {
                stanzas: without_stanzas(old(self)@.stanzas, chat@),
                ..old(self)@
            }),
    {
        let ghost m = self.by_stanza_id@;
        let mut i: usize = 0;
        while i < self.by_stanza_id.entries.len()
            invariant
                i <= self.by_stanza_id.entries@.len(),
                m == old(self).by_stanza_id@,
                self@ == (WaV { stanzas: self.by_stanza_id@, ..old(self)@ }),
                forall|k: Seq<char>|
                    #![trigger self.by_stanza_id@.dom().contains(k)]
                    self.by_stanza_id@.dom().contains(k) ==> m.dom().contains(k)
                        && self.by_stanza_id@[k] == m[k],
                forall|k: Seq<char>|
                    #![trigger self.by_stanza_id@.dom().contains(k)]
                    m.dom().contains(k) && m[k].0 != chat@ ==> self.by_stanza_id@.dom().contains(k),
                forall|j: int|
                    0 <= j < i ==> m.dom().contains((#[trigger] self.by_stanza_id.entries@[j]).0@)
                        && m[self.by_stanza_id.entries@[j].0@].0 != chat@,
            decreases self.by_stanza_id.entries@.len() - i,
        {
            let key: String = self.by_stanza_id.entries[i].0.clone();
            let ghost entries = self.by_stanza_id.entries@;
            let theirs: bool = match self.by_stanza_id.get(&key) {
                Some(v) => v.0 == *chat,
                None => false,
            };
            proof {
                entry_is_key(entries, i as int);
            }
            if theirs {
                let ghost now = self.by_stanza_id@;
                let rest: Vec<(String, (ChatId, MessageId))> = drop_key(
                    &self.by_stanza_id.entries,
                    &key,
                );
                proof {
                    assert(self.by_stanza_id@.dom().contains(key@));
                    assert(folded(rest@) =~= now.remove(key@));
                    assert forall|j: int| 0 <= j < i implies (#[trigger] entries[j]).0@ != key@ by {
                        assert(m[entries[j].0@].0 != chat@);
                    }
                    shrinks(entries, key@, i as int);
                    assert forall|j: int| 0 <= j < i implies m.dom().contains(
                        (#[trigger] rest@[j]).0@,
                    ) && m[rest@[j].0@].0 != chat@ by {
                        assert(rest@[j] == entries[j]);
                    }
                }
                self.by_stanza_id = Table { entries: rest };
            } else {
                i += 1;
            }
        }
        proof {
            let f = self.by_stanza_id@;
            let goal = without_stanzas(m, chat@);
            assert forall|k: Seq<char>| f.dom().contains(k) implies m[k].0 != chat@ by {
                key_has_entry(self.by_stanza_id.entries@, k);
                let j = choose|j: int|
                    0 <= j < self.by_stanza_id.entries@.len() && (
                    #[trigger] self.by_stanza_id.entries@[j]).0@ == k;
                assert(m[self.by_stanza_id.entries@[j].0@].0 != chat@);
            }
            assert(f =~= goal);
        }
    }

    /// Removes a chat with its messages. Returns its row, where there was one.
    pub fn remove_chat(&mut self, chat: &ChatId) -> (r: Option<Chat>)
        ensures
            final(self)@ == without_chat(old(self)@, chat@),
            opt_view(r) == match first_of(chat_ids(old(self)@.chats), chat@) {
                Some(i) => Some(old(self)@.chats[i]),
                None => None,
            },
    {
        proof {
            ids_contain_iff(self@.chats, chat@);
        }
        let removed: Option<Chat> = match chat_position(&self.chats, chat) {
            Some(i) => {
                let ghost before = self.chats@;
                assert(seen(before)[i as int] == before[i as int]@);
                let c: Chat = self.chats.remove(i);
                assert(seen(self.chats@) =~= seen(before).remove(i as int));
                self.previews.remove(chat);
                Some(c)
            },
            None => None,
        };
        self.history.remove(chat);
        self.forget_stanzas(chat);
        removed
    }

    /// The chat list in the order in which it is shown.
    pub fn sorted_chat_snapshot(&self) -> (r: Vec<Chat>)
        ensures
            seen(r@) == snapshot(self@),
    {
        let ghost all = with_recency(self@);
        let mut rows: Vec<RecentChat> = Vec::new();
        let mut i: usize = 0;
        assert(seen(rows@) =~= all.take(0));
        while i < self.chats.len()
            invariant
                i <= self.chats@.len(),
                all == with_recency(self@),
                seen(rows@) == all.take(i as int),
            decreases self.chats@.len() - i,
        {
            let ghost before = rows@;
            let recency: i64 = match self.history.get(&self.chats[i].id) {
                Some(h) => match newest_of(&h.messages) {
                    Some(k) => h.messages[k].timestamp,
                    None => 0,
                },
                None => {
                    assert(newest(Seq::<MessageV>::empty()) is None);
                    0
                },
            };
            assert(all[i as int] == (self.chats@[i as int]@, recency));
            rows.push(RecentChat { chat: self.chats[i].clone(), recency });
            assert(seen(rows@) =~= seen(before).push(all[i as int]));
            assert(all.take(i as int + 1) =~= all.take(i as int).push(all[i as int]));
            i += 1;
        }
        assert(all.take(i as int) =~= all);
        order(&mut rows);
        let ghost sorted = seen(rows@);
        let ghost goal = snapshot(self@);
        let mut out: Vec<Chat> = Vec::new();
        let mut k: usize = 0;
        assert(seen(out@) =~= goal.take(0));
        while k < rows.len()
            invariant
                k <= rows@.len(),
                sorted == seen(rows@),
                goal == sorted.map_values(|p: (ChatV, i64)| p.0),
                seen(out@) == goal.take(k as int),
            decreases rows@.len() - k,
        {
            let ghost before = out@;
            assert(sorted[k as int] == rows@[k as int]@);
            out.push(rows[k].chat.clone());
            assert(seen(out@) =~= seen(before).push(goal[k as int]));
            assert(goal.take(k as int + 1) =~= goal.take(k as int).push(goal[k as int]));
            k += 1;
        }
        assert(goal.take(k as int) =~= goal);
        out
    }

    /// The chat of a peer, where there is one.
    pub fn find_peer_chat(&self, jid: &JidParts) -> (r: Option<ChatId>)
        ensures
            opt_view(r) == peer_chat(self@, jid.parts()),
    {
        let chat: ChatId = self.fold_lid_key(jid.to_non_ad_string().as_str());
        if has_chat(&self.chats, &chat) {
            Some(chat)
        } else {
            None
        }
    }

    /// The keys under which the presence of a peer is kept.
    pub fn presence_keys(&self, jid: &JidParts) -> (r: Vec<String>)
        ensures
            views(r@) == presence_keys_of(jid.parts(), self@.lid_pn),
    {
        let mut keys: Vec<String> = Vec::new();
        keys.push(jid.to_non_ad_string());
        if jid.is_lid() {
            if let Some(pn) = self.lid_pn.get(&jid.user_base()) {
                keys.push(JidParts::pn(pn.as_str()).to_non_ad_string());
            }
        }
        assert(views(keys@) =~= presence_keys_of(jid.parts(), self@.lid_pn));
        keys
    }
}

/// An entry's key is a key of the map.
proof fn entry_is_key<K: View, V: View>(s: Seq<(K, V)>, i: int)
    requires
        0 <= i < s.len(),
    ensures
        folded(s).dom().contains(s[i].0@),
    decreases s.len(),
{
    if i < s.len() - 1 {
        assert(s.drop_last()[i] == s[i]);
        entry_is_key(s.drop_last(), i);
    }
}

/// A list of entries without those of a key.
spec fn without_key<V>(s: Seq<(String, V)>, key: Seq<char>) -> Seq<(String, V)>
    decreases s.len(),
{
    if s.len() == 0 {
        s
    } else if s.last().0@ == key {
        without_key(s.drop_last(), key)
    } else {
        without_key(s.drop_last(), key).push(s.last())
    }
}

proof fn without_key_folds<V: View>(s: Seq<(String, V)>, key: Seq<char>)
    ensures
        folded(without_key(s, key)) == folded(s).remove(key),
    decreases s.len(),
{
    if s.len() > 0 {
        let d = s.drop_last();
        without_key_folds(d, key);
        if s.last().0@ == key {
            assert(folded(d).remove(key) =~= folded(s).remove(key));
        } else {
            let w = without_key(d, key);
            assert(w.push(s.last()).drop_last() =~= w);
            assert(folded(d).remove(key).insert(s.last().0@, s.last().1@) =~= folded(s).remove(
                key,
            ));
        }
    } else {
        assert(folded(s).remove(key) =~= folded(s));
    }
}

/// Where the first entry of a key is the one at `i`, the entries before it stay
/// and there are fewer.
proof fn shrinks<V>(s: Seq<(String, V)>, key: Seq<char>, i: int)
    requires
        0 <= i < s.len(),
        s[i].0@ == key,
        forall|j: int| 0 <= j < i ==> (#[trigger] s[j]).0@ != key,
    ensures
        i <= without_key(s, key).len() < s.len(),
        forall|j: int| 0 <= j < i ==> without_key(s, key)[j] == s[j],
    decreases s.len(),
{
    let d = s.drop_last();
    assert forall|j: int| 0 <= j < i implies (#[trigger] d[j]).0@ != key by {
        assert(d[j] == s[j]);
    }
    if i < s.len() - 1 {
        assert(d[i] == s[i]);
        shrinks(d, key, i);
        let w = without_key(d, key);
        assert forall|j: int| 0 <= j < i implies without_key(s, key)[j] == s[j] by {
            assert(w[j] == d[j]);
            assert(d[j] == s[j]);
        }
    } else {
        without_key_same(d, key);
        assert(without_key(s, key) == d);
    }
}

proof fn without_key_same<V>(s: Seq<(String, V)>, key: Seq<char>)
    ensures
        (forall|j: int| 0 <= j < s.len() ==> (#[trigger] s[j]).0@ != key) ==> without_key(s, key)
            == s,
    decreases s.len(),
{
    if s.len() > 0 {
        let d = s.drop_last();
        without_key_same(d, key);
        if forall|j: int| 0 <= j < s.len() ==> (#[trigger] s[j]).0@ != key {
            assert forall|j: int| 0 <= j < d.len() implies (#[trigger] d[j]).0@ != key by {
                assert(d[j] == s[j]);
            }
            assert(s[s.len() - 1].0@ != key);
            assert(without_key(s, key) =~= s);
        }
    }
}

fn drop_key(s: &Vec<(String, (ChatId, MessageId))>, key: &String) -> (r: Vec<
    (String, (ChatId, MessageId)),
>)
    ensures
        r@ == without_key(s@, key@),
        folded(r@) == folded(s@).remove(key@),
{
    let mut out: Vec<(String, (ChatId, MessageId))> = Vec::new();
    let mut i: usize = 0;
    assert(out@ =~= without_key(s@.take(0), key@));
    while i < s.len()
        invariant
            i <= s@.len(),
            out@ == without_key(s@.take(i as int), key@),
        decreases s@.len() - i,
    {
        assert(s@.take(i as int + 1).drop_last() =~= s@.take(i as int));
        if !same(s[i].0.as_str(), key.as_str()) {
            out.push((s[i].0.clone(), (s[i].1.0.clone(), s[i].1.1.clone())));
        }
        i += 1;
    }
    assert(s@.take(i as int) =~= s@);
    proof {
        without_key_folds(s@, key@);
    }
    out
}


// Reports of the server.

/// A report of the server other than messages and history.
#[derive(Debug)]
pub enum WaEvent {
    Connected,
    /// The connection ended or could not be made.
    ConnectionFailure,
    PairingQrCode(String),
    DeleteChat { jid: String },
    ClearChat { jid: String },
    DeleteMessageForMe { chat_jid: String, message_id: String },
    Mute { jid: String, muted: Option<bool> },
    Pin { jid: String, pinned: Option<bool> },
    Archive { jid: String, archived: Option<bool> },
    MarkChatAsRead { jid: String },
    OfflineSyncCompleted,
    Presence { from: JidParts, unavailable: bool, last_seen: Option<i64> },
    /// Anything else; it is passed over.
    Other,
}

/// The most times that a snapshot of the account is asked for again.
pub const SNAPSHOT_RETRIES: u32 = 2;

/// The seconds to wait before a snapshot is asked for again.
pub const SNAPSHOT_WAIT_SECS: u64 = 10;

/// What a report leads to.
#[derive(Debug)]
pub struct WaOutcome {
    pub events: Vec<BackendEvent>,
    /// Whether names are to be looked up in the directory.
    pub enrich: bool,
}

/// The chat of an address in a report.
pub open spec fn chat_at(jid: Seq<char>) -> ChatIdV {
    ChatIdV::WhatsApp(canonical(jid))
}

/// The account with the row of a chat changed, and the report of it; nothing
/// where there is no row.
pub open spec fn row_changed(st: WaV, chat: ChatIdV, change: spec_fn(ChatV) -> ChatV) -> (
    WaV,
    Seq<BackendEventV>,
) {
    match first_of(chat_ids(st.chats), chat) {
        Some(i) => {
            let row = change(st.chats[i]);
            (
                WaV { chats: st.chats.update(i, row), ..st },
                seq![BackendEventV::ChatUpdated(row)],
            )
        },
        None => (st, Seq::empty()),
    }
}

/// A row with a status that is on or cleared.
pub open spec fn with_status(c: ChatV, on: bool, word: Seq<char>) -> ChatV {
    ChatV { status: Some(if on { word } else { ""@ }), ..c }
}

/// The account with the presence of a peer kept under each of its keys.
pub open spec fn with_presence(
    m: Map<Seq<char>, (bool, Option<i64>)>,
    keys: Seq<Seq<char>>,
    online: bool,
    last_seen: Option<i64>,
) -> Map<Seq<char>, (bool, Option<i64>)>
    decreases keys.len(),
{
    if keys.len() == 0 {
        m
    } else {
        with_presence(m, keys.drop_last(), online, last_seen).insert(
            keys.last(),
            (online, last_seen),
        )
    }
}

/// What a report of presence does: it is kept, and reported where the status of
/// the row changes. Peers without a row are passed over.
pub open spec fn presence_step(
    st: WaV,
    jid: (Seq<char>, Seq<char>, Seq<char>),
    online: bool,
    last_seen: Option<i64>,
    now: int,
) -> (WaV, Seq<BackendEventV>) {
    match peer_chat(st, jid) {
        None => (st, Seq::empty()),
        Some(chat) => {
            let st1 = WaV {
                presence: with_presence(
                    st.presence,
                    presence_keys_of(jid, st.lid_pn),
                    online,
                    last_seen,
                ),
                ..st
            };
            let label = presence_text(online, last_seen, now);
            match first_of(chat_ids(st.chats), chat) {
                Some(i) => if st.chats[i].status != label {
                    let row = ChatV { status: label, ..st.chats[i] };
                    (
                        WaV { chats: st.chats.update(i, row), ..st1 },
                        seq![BackendEventV::ChatUpdated(row)],
                    )
                } else {
                    (st1, Seq::empty())
                },
                None => (st1, Seq::empty()),
            }
        },
    }
}

/// What a report of the server does to the account, what is reported of it, and
/// whether names are to be looked up.
pub open spec fn event_step(st: WaV, e: WaEvent, now: int) -> (WaV, Seq<BackendEventV>, bool) {
    match e {
        WaEvent::Connected => (st, seq![BackendEventV::Connected], false),
        WaEvent::ConnectionFailure => (
            st,
            seq![BackendEventV::Disconnected("WhatsApp: Connection Failure!"@)],
            false,
        ),
        WaEvent::PairingQrCode(code) => (st, seq![BackendEventV::QrCode(code@)], false),
        WaEvent::DeleteChat { jid } => (
            without_chat(st, chat_at(jid@)),
            match first_of(chat_ids(st.chats), chat_at(jid@)) {
                Some(i) => seq![BackendEventV::ChatRemoved { chat: st.chats[i] }],
                None => Seq::empty(),
            },
            false,
        ),
        WaEvent::ClearChat { jid } => {
            let chat = chat_at(jid@);
            let ids = message_ids(history_of(st, chat));
            if ids.len() == 0 {
                (st, Seq::empty(), false)
            } else {
                (
                    previewed(WaV { history: st.history.insert(chat, Seq::empty()), ..st }, chat),
                    seq![BackendEventV::MessageDeleted { chat: Some(chat), message_ids: ids }],
                    false,
                )
            }
        },
        WaEvent::DeleteMessageForMe { chat_jid, message_id } => {
            let chat = chat_at(chat_jid@);
            let kept = without_message(history_of(st, chat), message_id@);
            if kept.len() == history_of(st, chat).len() {
                (st, Seq::empty(), false)
            } else {
                (
                    previewed(WaV { history: st.history.insert(chat, kept), ..st }, chat),
                    seq![
                        BackendEventV::MessageDeleted {
                            chat: Some(chat),
                            message_ids: seq![message_id@],
                        },
                    ],
                    false,
                )
            }
        },
        WaEvent::Mute { jid, muted } => {
            let (st1, out) = row_changed(
                st,
                chat_at(jid@),
                |c: ChatV| with_status(c, muted == Some(true), "muted"@),
            );
            (st1, out, false)
        },
        WaEvent::Pin { jid, pinned } => {
            let (st1, out) = row_changed(
                st,
                chat_at(jid@),
                |c: ChatV| ChatV { fixed: pinned == Some(true), ..c },
            );
            (st1, out, false)
        },
        WaEvent::Archive { jid, archived } => {
            let (st1, out) = row_changed(
                st,
                chat_at(jid@),
                |c: ChatV| with_status(c, archived == Some(true), "archived"@),
            );
            (st1, out, false)
        },
        WaEvent::MarkChatAsRead { jid } => {
            let chat = chat_at(jid@);
            match first_of(chat_ids(st.chats), chat) {
                Some(i) => (
                    WaV {
                        chats: st.chats.update(
                            i,
                            ChatV { unread: false, unread_count: 0, ..st.chats[i] },
                        ),
                        ..st
                    },
                    seq![
                        BackendEventV::UnreadUpdated { chat, unread: false, unread_count: 0 },
                    ],
                    false,
                ),
                None => (st, Seq::empty(), false),
            }
        },
        WaEvent::OfflineSyncCompleted => (st, seq![BackendEventV::ChatList(snapshot(st))], true),
        WaEvent::Presence { from, unavailable, last_seen } => {
            let (st1, out) = presence_step(st, from.parts(), !unavailable, last_seen, now);
            (st1, out, false)
        },
        WaEvent::Other => (st, Seq::empty(), false),
    }
}

fn push_event(out: &mut Vec<BackendEvent>, e: BackendEvent)
    ensures
        seen(final(out)@) == seen(old(out)@).push(e@),
{
    let ghost before = out@;
    let ghost v = e@;
    out.push(e);
    assert(seen(out@) =~= seen(before).push(v));
}

fn no_events() -> (r: Vec<BackendEvent>)
    ensures
        seen(r@) == Seq::<BackendEventV>::empty(),
{
    let r: Vec<BackendEvent> = Vec::new();
    assert(seen(r@) =~= Seq::<BackendEventV>::empty());
    r
}

fn one_event(e: BackendEvent) -> (r: Vec<BackendEvent>)
    ensures
        seen(r@) == seq![e@],
{
    let mut r: Vec<BackendEvent> = no_events();
    let ghost v = e@;
    push_event(&mut r, e);
    assert(seen(r@) =~= seq![v]);
    r
}

fn kept_messages(h: &Vec<Message>, id: &MessageId) -> (r: Vec<Message>)
    ensures
        seen(r@) == without_message(seen(h@), id@),
{
    let ghost all = seen(h@);
    let mut out: Vec<Message> = Vec::new();
    let mut i: usize = 0;
    assert(seen(out@) =~= without_message(all.take(0), id@));
    while i < h.len()
        invariant
            i <= h@.len(),
            all == seen(h@),
            seen(out@) == without_message(all.take(i as int), id@),
        decreases h@.len() - i,
    {
        let ghost before = out@;
        assert(all.take(i as int + 1).drop_last() =~= all.take(i as int));
        if !(h[i].message_id == *id) {
            out.push(h[i].clone());
            assert(seen(out@) =~= seen(before).push(h@[i as int]@));
        }
        i += 1;
    }
    assert(all.take(i as int) =~= all);
    out
}

fn ids_of(h: &Vec<Message>) -> (r: Vec<MessageId>)
    ensures
        seen(r@) == message_ids(seen(h@)),
{
    let ghost all = message_ids(seen(h@));
    let mut out: Vec<MessageId> = Vec::new();
    let mut i: usize = 0;
    assert(seen(out@) =~= all.take(0));
    while i < h.len()
        invariant
            i <= h@.len(),
            all == message_ids(seen(h@)),
            seen(out@) == all.take(i as int),
        decreases h@.len() - i,
    {
        let ghost before = out@;
        out.push(h[i].message_id.clone());
        assert(seen(out@) =~= seen(before).push(all[i as int]));
        assert(all.take(i as int + 1) =~= all.take(i as int).push(all[i as int]));
        i += 1;
    }
    assert(all.take(i as int) =~= all);
    out
}

proof fn without_message_shorter(s: Seq<MessageV>, id: Seq<char>)
    ensures
        without_message(s, id).len() <= s.len(),
    decreases s.len(),
{
    if s.len() > 0 {
        without_message_shorter(s.drop_last(), id);
    }
}

impl WhatsAppState {
    fn clear_chat(&mut self, chat: ChatId) -> (r: Vec<BackendEvent>)
        ensures
            ({
                let st = old(self)@;
                let ids = message_ids(history_of(st, chat@));
                if ids.len() == 0 {
                    final(self)@ == st && seen(r@) == Seq::<BackendEventV>::empty()
                } else {
                    final(self)@ == previewed(
                        WaV { history: st.history.insert(chat@, Seq::empty()), ..st },
                        chat@,
                    ) && seen(r@) == seq![
                        BackendEventV::MessageDeleted { chat: Some(chat@), message_ids: ids },
                    ]
                }
            }),
    {
        let h: Vec<Message> = self.copy_history(&chat);
        let ids: Vec<MessageId> = ids_of(&h);
        assert(seen(ids@).len() == ids@.len());
        if ids.len() == 0 {
            return no_events();
        }
        let none: Vec<Message> = Vec::new();
        assert(seen(none@) =~= Seq::<MessageV>::empty());
        self.history.insert(chat.clone(), History { messages: none });
        self.refresh_preview(&chat);
        one_event(BackendEvent::MessageDeleted { chat: Some(chat), message_ids: ids })
    }

    fn delete_message(&mut self, chat: ChatId, id: MessageId) -> (r: Vec<BackendEvent>)
        ensures
            ({
                let st = old(self)@;
                let kept = without_message(history_of(st, chat@), id@);
                if kept.len() == history_of(st, chat@).len() {
                    final(self)@ == st && seen(r@) == Seq::<BackendEventV>::empty()
                } else {
                    final(self)@ == previewed(
                        WaV { history: st.history.insert(chat@, kept), ..st },
                        chat@,
                    ) && seen(r@) == seq![
                        BackendEventV::MessageDeleted {
                            chat: Some(chat@),
                            message_ids: seq![id@],
                        },
                    ]
                }
            }),
    {
        let h: Vec<Message> = self.copy_history(&chat);
        let kept: Vec<Message> = kept_messages(&h, &id);
        assert(seen(h@).len() == h@.len());
        assert(seen(kept@).len() == kept@.len());
        if kept.len() == h.len() {
            return no_events();
        }
        self.history.insert(chat.clone(), History { messages: kept });
        self.refresh_preview(&chat);
        let ghost iv = id@;
        let mut ids: Vec<MessageId> = Vec::new();
        ids.push(id);
        assert(seen(ids@) =~= seq![iv]);
        one_event(BackendEvent::MessageDeleted { chat: Some(chat), message_ids: ids })
    }

    fn set_status(&mut self, chat: &ChatId, on: bool, word: &str) -> (r: Vec<BackendEvent>)
        ensures
            (final(self)@, seen(r@)) == row_changed(
                old(self)@,
                chat@,
                |c: ChatV| with_status(c, on, word@),
            ),
    {
        match chat_position(&self.chats, chat) {
            Some(i) => {
                assert(seen(self.chats@)[i as int] == self.chats@[i as int]@);
                let mut row: Chat = self.chats[i].clone();
                row.status = Some(if on { owned(word) } else { owned("") });
                self.set_row(i, row.clone());
                one_event(BackendEvent::ChatUpdated(row))
            },
            None => no_events(),
        }
    }

    fn set_pin(&mut self, chat: &ChatId, on: bool) -> (r: Vec<BackendEvent>)
        ensures
            (final(self)@, seen(r@)) == row_changed(
                old(self)@,
                chat@,
                |c: ChatV| ChatV { fixed: on, ..c },
            ),
    {
        match chat_position(&self.chats, chat) {
            Some(i) => {
                assert(seen(self.chats@)[i as int] == self.chats@[i as int]@);
                let mut row: Chat = self.chats[i].clone();
                row.fixed = on;
                self.set_row(i, row.clone());
                one_event(BackendEvent::ChatUpdated(row))
            },
            None => no_events(),
        }
    }

    fn keep_presence(&mut self, keys: &Vec<String>, online: bool, last_seen: Option<i64>)
        ensures
            final(self)@ == (WaV {
                presence: with_presence(old(self)@.presence, views(keys@), online, last_seen),
                ..old(self)@
            }),
    {
        let ghost all = views(keys@);
        let mut i: usize = 0;
        assert(all.take(0) =~= Seq::<Seq<char>>::empty());
        while i < keys.len()
            invariant
                i <= keys@.len(),
                all == views(keys@),
                self@ == (WaV {
                    presence: with_presence(
                        old(self)@.presence,
                        all.take(i as int),
                        online,
                        last_seen,
                    ),
                    ..old(self)@
                }),
            decreases keys@.len() - i,
        {
            assert(all.take(i as int + 1).drop_last() =~= all.take(i as int));
            assert(all[i as int] == keys@[i as int]@);
            self.presence.insert(keys[i].clone(), (online, last_seen));
            i += 1;
        }
        assert(all.take(i as int) =~= all);
    }

    fn on_presence(&mut self, from: &JidParts, online: bool, last_seen: Option<i64>, at: i64) -> (r:
        Vec<BackendEvent>)
        ensures
            (final(self)@, seen(r@)) == presence_step(
                old(self)@,
                from.parts(),
                online,
                last_seen,
                at as int,
            ),
    {
        let chat: ChatId = match self.find_peer_chat(from) {
            Some(c) => c,
            None => {
                return no_events();
            },
        };
        let keys: Vec<String> = self.presence_keys(from);
        self.keep_presence(&keys, online, last_seen);
        let label: Option<String> = presence_label_at(online, last_seen, at);
        match chat_position(&self.chats, &chat) {
            Some(i) => {
                assert(seen(self.chats@)[i as int] == self.chats@[i as int]@);
                if crate::backend::same_opt(&self.chats[i].status, &label) {
                    return no_events();
                }
                let mut row: Chat = self.chats[i].clone();
                row.status = label;
                self.set_row(i, row.clone());
                one_event(BackendEvent::ChatUpdated(row))
            },
            None => no_events(),
        }
    }

    /// Whether a snapshot is asked for again, after it was asked for again
    /// `attempt` times: only while no history sync came, and not without end.
    /// That chats are listed says nothing of it, since they may be saved ones.
    pub fn asks_for_snapshot(&self, attempt: u32) -> (r: bool)
        ensures
            r == (attempt < SNAPSHOT_RETRIES && self@.sync_seen_at is None),
    {
        attempt < SNAPSHOT_RETRIES && self.sync_seen_at.is_none()
    }

    /// Takes in a report of the server at a given time.
    pub fn handle_event(&mut self, event: WaEvent, at: i64) -> (r: WaOutcome)
        ensures
            (final(self)@, seen(r.events@), r.enrich) == event_step(
                old(self)@,
                event,
                at as int,
            ),
    {
        let mut enrich: bool = false;
        let events: Vec<BackendEvent> = match event {
            WaEvent::Connected => one_event(BackendEvent::Connected),
            WaEvent::ConnectionFailure => one_event(
                BackendEvent::Disconnected(owned("WhatsApp: Connection Failure!")),
            ),
            WaEvent::PairingQrCode(code) => one_event(BackendEvent::QrCode(code)),
            WaEvent::DeleteChat { jid } => {
                let chat: ChatId = ChatId::jid_to_chat_id(jid.as_str());
                match self.remove_chat(&chat) {
                    Some(c) => one_event(BackendEvent::ChatRemoved { chat: c }),
                    None => no_events(),
                }
            },
            WaEvent::ClearChat { jid } => self.clear_chat(ChatId::jid_to_chat_id(jid.as_str())),
            WaEvent::DeleteMessageForMe { chat_jid, message_id } => self.delete_message(
                ChatId::jid_to_chat_id(chat_jid.as_str()),
                MessageId(message_id),
            ),
            WaEvent::Mute { jid, muted } => self.set_status(
                &ChatId::jid_to_chat_id(jid.as_str()),
                is_true(muted),
                "muted",
            ),
            WaEvent::Pin { jid, pinned } => self.set_pin(
                &ChatId::jid_to_chat_id(jid.as_str()),
                is_true(pinned),
            ),
            WaEvent::Archive { jid, archived } => self.set_status(
                &ChatId::jid_to_chat_id(jid.as_str()),
                is_true(archived),
                "archived",
            ),
            WaEvent::MarkChatAsRead { jid } => {
                let chat: ChatId = ChatId::jid_to_chat_id(jid.as_str());
                match chat_position(&self.chats, &chat) {
                    Some(i) => {
                        assert(seen(self.chats@)[i as int] == self.chats@[i as int]@);
                        let mut row: Chat = self.chats[i].clone();
                        row.unread = false;
                        row.unread_count = 0;
                        self.set_row(i, row);
                        one_event(
                            BackendEvent::UnreadUpdated { chat, unread: false, unread_count: 0 },
                        )
                    },
                    None => no_events(),
                }
            },
            WaEvent::OfflineSyncCompleted => {
                enrich = true;
                one_event(BackendEvent::ChatList(self.sorted_chat_snapshot()))
            },
            WaEvent::Presence { from, unavailable, last_seen } => self.on_presence(
                &from,
                !unavailable,
                last_seen,
                at,
            ),
            WaEvent::Other => no_events(),
        };
        WaOutcome { events, enrich }
    }
}

// History sync.

fn author_of_web(conv_id: &str, participant: &Option<String>) -> (r: JidParts)
    ensures
        r.parts() == web_author(conv_id@, *participant),
{
    if let Some(p) = participant {
        if let Some(jid) = JidParts::parse(p.as_str()) {
            return jid;
        }
    }
    match JidParts::parse(conv_id) {
        Some(jid) => jid,
        None => JidParts::pn(conv_id),
    }
}

fn text_in(v: &Vec<String>, s: &str) -> (r: bool)
    ensures
        r == views(v@).contains(s@),
{
    let ghost all = views(v@);
    let mut i: usize = 0;
    while i < v.len()
        invariant
            i <= v@.len(),
            all == views(v@),
            forall|k: int| 0 <= k < i ==> all[k] != s@,
        decreases v@.len() - i,
    {
        assert(all[i as int] == v@[i as int]@);
        if same(v[i].as_str(), s) {
            assert(all[i as int] == s@);
            return true;
        }
        i += 1;
    }
    false
}

fn push_text(out: &mut Vec<String>, s: String)
    ensures
        views(final(out)@) == views(old(out)@).push(s@),
{
    let ghost before = out@;
    let ghost v = s@;
    out.push(s);
    assert(views(out@) =~= views(before).push(v));
}

fn ascii(s: &str) -> (r: bool)
    ensures
        r == all_ascii(s@),
{
    let x: Vec<char> = to_chars(s);
    let mut i: usize = 0;
    while i < x.len()
        invariant
            x@ == s@,
            i <= x@.len(),
            forall|k: int| 0 <= k < i ==> (#[trigger] x@[k] as u32) < 0x80,
        decreases x@.len() - i,
    {
        if x[i] as u32 >= 0x80 {
            assert((s@[i as int] as u32) >= 0x80);
            return false;
        }
        i += 1;
    }
    true
}

impl WhatsAppState {
    /// A message of a history sync as a message of a chat.
    fn message_of_web(
        &self,
        conv_id: &str,
        chat: &ChatId,
        web: &WaWebMessage,
        key: &WaKey,
        id: &String,
        content: &WaContent,
        at: i64,
    ) -> (r: Message)
        requires
            web.key == Some(*key),
            key.id == Some(*id),
            web.message == Some(*content),
        ensures
            r@ == web_message(self@, conv_id@, chat@, *web, at),
    {
        let sender: JidParts = author_of_web(conv_id, &key.participant);
        let push: &str = match &web.push_name {
            Some(p) => p.as_str(),
            None => "",
        };
        let push_name: String = resolve_sender_name(push, &sender, &self.pushnames, &self.lid_pn);
        let info = WaInfo {
            id: id.clone(),
            sender,
            push_name,
            timestamp: time_of(web.timestamp, at),
            from_me: is_true(key.from_me),
        };
        to_senders_msg(chat.clone(), &info, content, self)
    }

    /// One message of a conversation: a new one goes to `out`, and its stanza to
    /// `met`.
    fn collect_message(
        &self,
        conv_id: &str,
        chat: &ChatId,
        w: &Option<WaWebMessage>,
        at: i64,
        met: &mut Vec<String>,
        out: &mut Vec<Message>,
    )
        ensures
            match web_stanza(*w) {
                None => views(final(met)@) == views(old(met)@) && seen(final(out)@) == seen(
                    old(out)@,
                ),
                Some(stanza) => if views(old(met)@).contains(stanza) {
                    views(final(met)@) == views(old(met)@) && seen(final(out)@) == seen(old(out)@)
                } else {
                    let m = web_message(self@, conv_id@, chat@, w.unwrap(), at);
                    views(final(met)@) == views(old(met)@).push(stanza) && seen(final(out)@)
                        == if message_ids(history_of(self@, chat@)).contains(stanza) || (m.text.len()
                        == 0 && m.media is None) {
                        seen(old(out)@)
                    } else {
                        seen(old(out)@).push(m)
                    }
                },
            },
    {
        if let Some(web) = w {
            if let (Some(key), Some(content)) = (&web.key, &web.message) {
                if let Some(id) = &key.id {
                    if text_in(met, id.as_str()) {
                        return;
                    }
                    push_text(met, id.clone());
                    let mid: MessageId = MessageId(id.clone());
                    if self.knows_message(chat, &mid) {
                        return;
                    }
                    let m: Message = self.message_of_web(
                        conv_id,
                        chat,
                        web,
                        key,
                        id,
                        content,
                        at,
                    );
                    let silent: bool = to_chars(m.text.as_str()).len() == 0 && m.media.is_none();
                    if !silent {
                        let ghost before = out@;
                        let ghost mv = m@;
                        out.push(m);
                        assert(seen(out@) =~= seen(before).push(mv));
                    }
                }
            }
        }
    }

    /// The new messages of a conversation in the order of the report.
    fn collect_messages(&self, conv: &WaConversation, chat: &ChatId, at: i64) -> (r: Vec<Message>)
        ensures
            seen(r@) == new_messages(self@, conv.id@, chat@, conv.messages@, at).1,
    {
        let mut met: Vec<String> = Vec::new();
        let mut out: Vec<Message> = Vec::new();
        let ghost all = conv.messages@;
        let mut i: usize = 0;
        assert(views(met@) =~= Seq::<Seq<char>>::empty());
        assert(seen(out@) =~= Seq::<MessageV>::empty());
        assert(all.take(0) =~= Seq::<Option<WaWebMessage>>::empty());
        while i < conv.messages.len()
            invariant
                i <= conv.messages@.len(),
                all == conv.messages@,
                (views(met@), seen(out@)) == new_messages(
                    self@,
                    conv.id@,
                    chat@,
                    all.take(i as int),
                    at,
                ),
            decreases conv.messages@.len() - i,
        {
            assert(all.take(i as int + 1).drop_last() =~= all.take(i as int));
            self.collect_message(
                conv.id.as_str(),
                chat,
                &conv.messages[i],
                at,
                &mut met,
                &mut out,
            );
            i += 1;
        }
        assert(all.take(i as int) =~= all);
        out
    }

    fn add_messages(&mut self, chat: &ChatId, msgs: &Vec<Message>)
        ensures
            final(self)@ == with_messages(old(self)@, chat@, seen(msgs@)),
    {
        let ghost all = seen(msgs@);
        let mut i: usize = 0;
        assert(all.take(0) =~= Seq::<MessageV>::empty());
        while i < msgs.len()
            invariant
                i <= msgs@.len(),
                all == seen(msgs@),
                self@ == with_messages(old(self)@, chat@, all.take(i as int)),
            decreases msgs@.len() - i,
        {
            assert(all.take(i as int + 1).drop_last() =~= all.take(i as int));
            assert(all[i as int] == msgs@[i as int]@);
            if !self.knows_message(chat, &msgs[i].message_id) {
                self.by_stanza_id.insert(
                    msgs[i].message_id.0.clone(),
                    (chat.clone(), msgs[i].message_id.clone()),
                );
                self.add_message(chat, msgs[i].clone());
            }
            i += 1;
        }
        assert(all.take(i as int) =~= all);
    }

    fn sync_conversation(&mut self, conv: &WaConversation, chat: &ChatId, at: i64)
        ensures
            final(self)@ == synced_conversation(old(self)@, *conv, chat@, at),
    {
        self.upsert_conversation(conv, chat.clone());
        let mut fresh: Vec<Message> = self.collect_messages(conv, chat, at);
        order(&mut fresh);
        self.add_messages(chat, &fresh);
        self.refresh_preview(chat);
    }

    fn canonical_of_all(&mut self, convs: &Vec<WaConversation>, found: &TextMap<String>) -> (r: Vec<
        ChatId,
    >)
        ensures
            (final(self)@, seen(r@)) == canonical_ids(old(self)@, convs@, found@),
            r@.len() == convs@.len(),
    {
        let mut out: Vec<ChatId> = Vec::new();
        let mut i: usize = 0;
        assert(seen(out@) =~= Seq::<ChatIdV>::empty());
        assert(convs@.take(0) =~= Seq::<WaConversation>::empty());
        while i < convs.len()
            invariant
                i <= convs@.len(),
                out@.len() == i,
                (self@, seen(out@)) == canonical_ids(old(self)@, convs@.take(i as int), found@),
            decreases convs@.len() - i,
        {
            assert(convs@.take(i as int + 1).drop_last() =~= convs@.take(i as int));
            let ghost before = out@;
            let chat: ChatId = self.canonical_chat_id(
                ChatId::jid_to_chat_id(convs[i].id.as_str()),
                found,
            );
            let ghost cv = chat@;
            out.push(chat);
            assert(seen(out@) =~= seen(before).push(cv));
            i += 1;
        }
        assert(convs@.take(i as int) =~= convs@);
        out
    }

    fn learn_author(&mut self, conv_id: &str, w: &Option<WaWebMessage>, found: &TextMap<String>)
        ensures
            final(self)@ == author_learned(old(self)@, conv_id@, *w, found@),
    {
        if let Some(web) = w {
            if let Some(key) = &web.key {
                let sender: JidParts = author_of_web(conv_id, &key.participant);
                if is_true(key.from_me) || said(&web.push_name).is_some() || !ascii(
                    sender.user_base().as_str(),
                ) {
                    return;
                }
                self.learn_lid_pn(&sender, found);
            }
        }
    }

    fn learn_authors(&mut self, conv: &WaConversation, found: &TextMap<String>)
        ensures
            final(self)@ == authors_learned(old(self)@, conv.id@, conv.messages@, found@),
    {
        let ghost all = conv.messages@;
        let mut i: usize = 0;
        assert(all.take(0) =~= Seq::<Option<WaWebMessage>>::empty());
        while i < conv.messages.len()
            invariant
                i <= conv.messages@.len(),
                all == conv.messages@,
                self@ == authors_learned(old(self)@, conv.id@, all.take(i as int), found@),
            decreases conv.messages@.len() - i,
        {
            assert(all.take(i as int + 1).drop_last() =~= all.take(i as int));
            self.learn_author(conv.id.as_str(), &conv.messages[i], found);
            i += 1;
        }
        assert(all.take(i as int) =~= all);
    }

    fn learn_all_authors(&mut self, convs: &Vec<WaConversation>, found: &TextMap<String>)
        ensures
            final(self)@ == all_authors_learned(old(self)@, convs@, found@),
    {
        let mut i: usize = 0;
        assert(convs@.take(0) =~= Seq::<WaConversation>::empty());
        while i < convs.len()
            invariant
                i <= convs@.len(),
                self@ == all_authors_learned(old(self)@, convs@.take(i as int), found@),
            decreases convs@.len() - i,
        {
            assert(convs@.take(i as int + 1).drop_last() =~= convs@.take(i as int));
            self.learn_authors(&convs[i], found);
            i += 1;
        }
        assert(convs@.take(i as int) =~= convs@);
    }

    fn add_pushnames(&mut self, list: &Vec<WaPushname>)
        ensures
            final(self)@ == (WaV {
                pushnames: with_pushnames(old(self)@.pushnames, list@),
                ..old(self)@
            }),
    {
        let mut i: usize = 0;
        assert(list@.take(0) =~= Seq::<WaPushname>::empty());
        while i < list.len()
            invariant
                i <= list@.len(),
                self@ == (WaV {
                    pushnames: with_pushnames(old(self)@.pushnames, list@.take(i as int)),
                    ..old(self)@
                }),
            decreases list@.len() - i,
        {
            assert(list@.take(i as int + 1).drop_last() =~= list@.take(i as int));
            if let (Some(id), Some(name)) = (&list[i].id, &list[i].pushname) {
                if !is_blank(name.as_str()) {
                    self.pushnames.insert(id.clone(), name.clone());
                }
            }
            i += 1;
        }
        assert(list@.take(i as int) =~= list@);
    }

    fn take_in_history(
        &mut self,
        hs: &WaHistorySync,
        found: &TextMap<String>,
        own: Option<(Option<String>, Option<String>)>,
        at: i64,
    )
        ensures
            final(self)@ == history_synced(old(self)@, *hs, found@, own_of(own), at),
    {
        let ids: Vec<ChatId> = self.canonical_of_all(&hs.conversations, found);
        let ghost idv = seen(ids@);
        self.learn_all_authors(&hs.conversations, found);
        if let Some((lid, pn)) = own {
            self.learn_own_identity(lid, pn);
        }
        if self.sync_seen_at.is_none() {
            self.sync_seen_at = Some(at);
        }
        self.add_pushnames(&hs.pushnames);
        let ghost st = self@;
        let ghost convs = hs.conversations@;
        let mut i: usize = 0;
        assert(convs.take(0) =~= Seq::<WaConversation>::empty());
        while i < hs.conversations.len()
            invariant
                i <= hs.conversations@.len(),
                convs == hs.conversations@,
                ids@.len() == convs.len(),
                idv == seen(ids@),
                self@ == synced_conversations(st, convs.take(i as int), idv.take(i as int), at),
            decreases hs.conversations@.len() - i,
        {
            assert(convs.take(i as int + 1).drop_last() =~= convs.take(i as int));
            assert(idv.take(i as int + 1).drop_last() =~= idv.take(i as int));
            assert(idv[i as int] == ids@[i as int]@);
            self.sync_conversation(&hs.conversations[i], &ids[i], at);
            i += 1;
        }
        assert(convs.take(i as int) =~= convs);
        assert(idv.take(i as int) =~= idv);
    }

    /// Takes in a history sync at a given time. `found` is what is known of the
    /// phone numbers behind opaque identities, and `own` the account's
    /// addresses where the connection is there to ask; rows of one peer are
    /// then folded too. Returns what is to be reported.
    pub fn handle_history_sync(
        &mut self,
        hs: &WaHistorySync,
        found: &TextMap<String>,
        own: Option<(Option<String>, Option<String>)>,
        at: i64,
    ) -> (r: Vec<BackendEvent>)
        ensures
            ({
                let st1 = history_synced(old(self)@, *hs, found@, own_of(own), at);
                let done = seq![
                    BackendEventV::ChatList(snapshot(st1)),
                    BackendEventV::Status("history synced"@),
                ];
                if own is Some {
                    let (st2, gone) = lids_folded(st1, lids_of(st1.chats), found@);
                    final(self)@ == st2 && seen(r@) == done + fold_events(st2, gone)
                } else {
                    final(self)@ == st1 && seen(r@) == done
                }
            }),
    {
        let online: bool = own.is_some();
        self.take_in_history(hs, found, own, at);
        let mut events: Vec<BackendEvent> = no_events();
        push_event(&mut events, BackendEvent::ChatList(self.sorted_chat_snapshot()));
        push_event(&mut events, BackendEvent::Status(owned("history synced")));
        let ghost done = seen(events@);
        assert(done =~= seq![
            BackendEventV::ChatList(snapshot(self@)),
            BackendEventV::Status("history synced"@),
        ]);
        if online {
            let (_count, mut more): (usize, Vec<BackendEvent>) = self.merge_lid_duplicates(found);
            let ghost a = events@;
            let ghost b = more@;
            events.append(&mut more);
            assert(seen(events@) =~= seen(a) + seen(b));
        }
        events
    }

    /// The opaque identities among the chats.
    pub fn lid_bases(&self) -> (r: Vec<String>)
        ensures
            views(r@) == lids_of(self@.chats),
    {
        let ghost all = self@.chats;
        let mut out: Vec<String> = Vec::new();
        let mut i: usize = 0;
        assert(views(out@) =~= lids_of(all.take(0)));
        while i < self.chats.len()
            invariant
                i <= self.chats@.len(),
                all == seen(self.chats@),
                views(out@) == lids_of(all.take(i as int)),
            decreases self.chats@.len() - i,
        {
            assert(all.take(i as int + 1).drop_last() =~= all.take(i as int));
            assert(all[i as int] == self.chats@[i as int]@);
            if let ChatId::WhatsApp(raw) = &self.chats[i].id {
                if let Some(jid) = JidParts::parse(raw.as_str()) {
                    if jid.is_lid() {
                        push_text(&mut out, jid.user_base());
                    }
                }
            }
            i += 1;
        }
        assert(all.take(i as int) =~= all);
        out
    }

    fn move_history(&mut self, lid_chat: &ChatId, pn_chat: &ChatId)
        ensures
            ({
                let st = old(self)@;
                let left = st.history.remove(lid_chat@);
                let own = if left.dom().contains(pn_chat@) {
                    left[pn_chat@]
                } else {
                    Seq::empty()
                };
                final(self)@ == (WaV {
                    history: if st.history.dom().contains(lid_chat@) {
                        left.insert(
                            pn_chat@,
                            ordered::<Message>(joined_messages(own, st.history[lid_chat@])),
                        )
                    } else {
                        st.history
                    },
                    ..st
                })
            }),
    {
        if !self.history.contains_key(lid_chat) {
            return;
        }
        let theirs: Vec<Message> = self.copy_history(lid_chat);
        self.history.remove(lid_chat);
        let mut own: Vec<Message> = self.copy_history(pn_chat);
        let ghost a = seen(own@);
        let ghost b = seen(theirs@);
        let mut i: usize = 0;
        assert(b.take(0) =~= Seq::<MessageV>::empty());
        while i < theirs.len()
            invariant
                i <= theirs@.len(),
                b == seen(theirs@),
                seen(own@) == joined_messages(a, b.take(i as int)),
            decreases theirs@.len() - i,
        {
            assert(b.take(i as int + 1).drop_last() =~= b.take(i as int));
            assert(b[i as int] == theirs@[i as int]@);
            let ghost before = own@;
            proof {
                message_ids_contain_iff(seen(own@), theirs@[i as int].message_id@);
            }
            if message_position(&own, &theirs[i].message_id).is_none() {
                own.push(theirs[i].clone());
                assert(seen(own@) =~= seen(before).push(b[i as int]));
            }
            i += 1;
        }
        assert(b.take(i as int) =~= b);
        order(&mut own);
        self.history.insert(pn_chat.clone(), History { messages: own });
    }

    fn move_preview(&mut self, lid_chat: &ChatId, pn_chat: &ChatId)
        ensures
            ({
                let st = old(self)@;
                let moved = if st.previews.dom().contains(lid_chat@) && !st.previews.dom().contains(
                    pn_chat@,
                ) {
                    st.previews.insert(pn_chat@, st.previews[lid_chat@])
                } else {
                    st.previews
                };
                final(self)@ == (WaV {
                    previews: if lid_chat@ == pn_chat@ {
                        moved
                    } else {
                        moved.remove(lid_chat@)
                    },
                    ..st
                })
            }),
    {
        let preview: Option<String> = match self.previews.get(lid_chat) {
            Some(p) => Some(p.clone()),
            None => None,
        };
        if let Some(p) = preview {
            if !self.previews.contains_key(pn_chat) {
                self.previews.insert(pn_chat.clone(), p);
            }
        }
        if !(*lid_chat == *pn_chat) {
            self.previews.remove(lid_chat);
        }
    }

    /// Folds the row of one opaque identity into that of its phone number.
    /// Returns the row that went, and the chat that took it over.
    fn fold_lid(&mut self, base: &String, found: &TextMap<String>) -> (r: Option<(Chat, ChatId)>)
        ensures
            ({
                let (st1, gone) = lid_folded(old(self)@, base@, found@);
                final(self)@ == st1 && match r {
                    Some((c, id)) => gone == Some((c@, id@)),
                    None => gone is None,
                }
            }),
    {
        let jid: JidParts = match JidParts::parse(joined(base.as_str(), "@lid").as_str()) {
            Some(jid) => jid,
            None => {
                return None;
            },
        };
        let pn: String = match found.get(base) {
            Some(p) => p.clone(),
            None => {
                return None;
            },
        };
        let pn_chat: ChatId = pn_chat_id(pn.as_str());
        self.lid_pn.insert(base.clone(), pn);
        let lid_chat: ChatId = ChatId::WhatsApp(jid.to_non_ad_string());
        if !has_chat(&self.chats, &pn_chat) {
            return None;
        }
        let i: usize = match chat_position(&self.chats, &lid_chat) {
            Some(i) => i,
            None => {
                return None;
            },
        };
        let ghost before = self.chats@;
        assert(seen(before)[i as int] == before[i as int]@);
        let orphan: Chat = self.chats.remove(i);
        let ghost rest = self.chats@;
        assert(seen(rest) =~= seen(before).remove(i as int));
        if let Some(k) = chat_position(&self.chats, &pn_chat) {
            assert(seen(rest)[k as int] == rest[k as int]@);
            let mut row: Chat = self.chats[k].clone();
            row.unread = row.unread || orphan.unread;
            row.unread_count = max_i32(row.unread_count, orphan.unread_count);
            row.verified = row.verified || orphan.verified;
            self.set_row(k, row);
        }
        self.move_preview(&lid_chat, &pn_chat);
        self.move_history(&lid_chat, &pn_chat);
        self.forget_stanzas(&lid_chat);
        Some((orphan, pn_chat))
    }

    /// Folds the rows of opaque identities into those of their phone numbers,
    /// so that no peer has two. Returns how many went, and what is to be
    /// reported.
    pub fn merge_lid_duplicates(&mut self, found: &TextMap<String>) -> (r: (
        usize,
        Vec<BackendEvent>,
    ))
        ensures
            ({
                let (st1, gone) = lids_folded(old(self)@, lids_of(old(self)@.chats), found@);
                final(self)@ == st1 && r.0 == gone.len() && seen(r.1@) == fold_events(st1, gone)
            }),
    {
        let bases: Vec<String> = self.lid_bases();
        let ghost all = views(bases@);
        let mut gone: Vec<(Chat, ChatId)> = Vec::new();
        let mut i: usize = 0;
        assert(all.take(0) =~= Seq::<Seq<char>>::empty());
        assert(seen(gone@) =~= Seq::<(ChatV, ChatIdV)>::empty());
        while i < bases.len()
            invariant
                i <= bases@.len(),
                all == views(bases@),
                (self@, seen(gone@)) == lids_folded(old(self)@, all.take(i as int), found@),
            decreases bases@.len() - i,
        {
            assert(all.take(i as int + 1).drop_last() =~= all.take(i as int));
            assert(all[i as int] == bases@[i as int]@);
            let ghost before = gone@;
            if let Some(g) = self.fold_lid(&bases[i], found) {
                let ghost gv = g@;
                gone.push(g);
                assert(seen(gone@) =~= seen(before).push(gv));
            }
            i += 1;
        }
        assert(all.take(i as int) =~= all);
        let ghost gv = seen(gone@);
        assert(gv.len() == gone@.len());
        let mut events: Vec<BackendEvent> = no_events();
        let count: usize = gone.len();
        if count == 0 {
            return (0, events);
        }
        let ghost removed = gv.map_values(
            |g: (ChatV, ChatIdV)| BackendEventV::ChatRemoved { chat: g.0 },
        );
        let mut k: usize = 0;
        assert(seen(events@) =~= removed.take(0));
        while k < gone.len()
            invariant
                k <= gone@.len(),
                gv == seen(gone@),
                removed == gv.map_values(
                    |g: (ChatV, ChatIdV)| BackendEventV::ChatRemoved { chat: g.0 },
                ),
                seen(events@) == removed.take(k as int),
            decreases gone@.len() - k,
        {
            assert(gv[k as int] == gone@[k as int]@);
            push_event(&mut events, BackendEvent::ChatRemoved { chat: gone[k].0.clone() });
            assert(removed.take(k as int + 1) =~= removed.take(k as int).push(removed[k as int]));
            k += 1;
        }
        assert(removed.take(k as int) =~= removed);
        let rows: Vec<Chat> = self.rows_of(&gone);
        let ghost rv = seen(rows@);
        let ghost updated = rv.map_values(|c: ChatV| BackendEventV::ChatUpdated(c));
        let mut n: usize = 0;
        assert(removed + updated.take(0) =~= removed);
        while n < rows.len()
            invariant
                n <= rows@.len(),
                rv == seen(rows@),
                updated == rv.map_values(|c: ChatV| BackendEventV::ChatUpdated(c)),
                seen(events@) == removed + updated.take(n as int),
            decreases rows@.len() - n,
        {
            assert(rv[n as int] == rows@[n as int]@);
            push_event(&mut events, BackendEvent::ChatUpdated(rows[n].clone()));
            assert(removed + updated.take(n as int + 1) =~= (removed + updated.take(
                n as int,
            )).push(updated[n as int]));
            n += 1;
        }
        assert(updated.take(n as int) =~= updated);
        push_event(&mut events, BackendEvent::ChatList(self.sorted_chat_snapshot()));
        push_event(&mut events, BackendEvent::Status(owned("merged duplicate chats")));
        assert(seen(events@) =~= fold_events(self@, gv));
        (count, events)
    }

    fn rows_of(&self, gone: &Vec<(Chat, ChatId)>) -> (r: Vec<Chat>)
        ensures
            seen(r@) == rows_of_chats(self@.chats, seen(gone@)),
    {
        let ghost gv = seen(gone@);
        let mut out: Vec<Chat> = Vec::new();
        let mut i: usize = 0;
        assert(seen(out@) =~= rows_of_chats(self@.chats, gv.take(0)));
        while i < gone.len()
            invariant
                i <= gone@.len(),
                gv == seen(gone@),
                seen(out@) == rows_of_chats(self@.chats, gv.take(i as int)),
            decreases gone@.len() - i,
        {
            assert(gv.take(i as int + 1).drop_last() =~= gv.take(i as int));
            assert(gv[i as int] == gone@[i as int]@);
            let ghost before = out@;
            if let Some(k) = chat_position(&self.chats, &gone[i].1) {
                assert(seen(self.chats@)[k as int] == self.chats@[k as int]@);
                out.push(self.chats[k].clone());
                assert(seen(out@) =~= seen(before).push(self@.chats[k as int]));
            }
            i += 1;
        }
        assert(gv.take(i as int) =~= gv);
        out
    }

    // Names from the directory.

    /// The peers to ask the directory about.
    pub fn enrich_candidates(&self, own: &Vec<String>) -> (r: Vec<JidParts>)
        ensures
            r@.map_values(|j: JidParts| j.parts()) == name_candidates(
                self@,
                self@.chats,
                views(own@),
            ).1,
    {
        let ghost all = self@.chats;
        let mut met: Vec<String> = Vec::new();
        let mut out: Vec<JidParts> = Vec::new();
        let mut i: usize = 0;
        assert(views(met@) =~= Seq::<Seq<char>>::empty());
        assert(out@.map_values(|j: JidParts| j.parts()) =~= Seq::empty());
        assert(all.take(0) =~= Seq::<ChatV>::empty());
        while i < self.chats.len()
            invariant
                i <= self.chats@.len(),
                all == seen(self.chats@),
                (views(met@), out@.map_values(|j: JidParts| j.parts())) == name_candidates(
                    self@,
                    all.take(i as int),
                    views(own@),
                ),
            decreases self.chats@.len() - i,
        {
            assert(all.take(i as int + 1).drop_last() =~= all.take(i as int));
            assert(all[i as int] == self.chats@[i as int]@);
            if let ChatId::WhatsApp(raw) = &self.chats[i].id {
                if let Some(jid) = JidParts::parse(raw.as_str()) {
                    let key: String = jid.to_non_ad_string();
                    let peer: bool = jid.is_pn() || jid.is_lid();
                    if peer && !text_in(own, key.as_str()) && !self.usync_names.contains_key(raw)
                        && !self.usync_attempted.contains_key(raw) && !text_in(
                        &met,
                        key.as_str(),
                    ) {
                        push_text(&mut met, key);
                        let ghost before = out@;
                        let ghost jp = jid.parts();
                        out.push(jid);
                        assert(out@.map_values(|j: JidParts| j.parts()) =~= before.map_values(
                            |j: JidParts| j.parts(),
                        ).push(jp));
                    }
                }
            }
            i += 1;
        }
        assert(all.take(i as int) =~= all);
        out
    }

    fn name_chat(&mut self, key: &String, name: &String, business: bool)
        ensures
            final(self)@ == (WaV {
                chats: named_chat(old(self)@.chats, key@, name@, business),
                ..old(self)@
            }),
    {
        let id: ChatId = ChatId::WhatsApp(key.clone());
        if let Some(i) = chat_position(&self.chats, &id) {
            assert(seen(self.chats@)[i as int] == self.chats@[i as int]@);
            let mut row: Chat = self.chats[i].clone();
            row.contact_name = name.clone();
            row.verified = business;
            self.set_row(i, row);
        }
    }

    /// Takes in an answer of the directory. `pushnames` are the push names known
    /// when it was asked.
    fn apply_directory_name(
        &mut self,
        r: &UsyncResult,
        found: &TextMap<String>,
        name: Option<String>,
        Ghost(pushnames): Ghost<Map<Seq<char>, Seq<char>>>,
    )
        requires
            opt_text(name) == directory_name(*r, found@, pushnames),
        ensures
            final(self)@ == with_directory_name(old(self)@, *r, found@, pushnames),
    {
        let asked: String = r.jid.to_non_ad_string();
        self.usync_attempted.insert(asked.clone(), ());
        let name: String = match name {
            Some(n) => n,
            None => {
                return;
            },
        };
        let business: bool = r.is_business && r.verified_name.is_some();
        self.usync_names.insert(asked.clone(), name.clone());
        if business {
            self.usync_verified.insert(asked.clone(), ());
        }
        self.name_chat(&asked, &name, business);
        if let Some(pn) = &r.pn_jid {
            let key: String = pn.to_non_ad_string();
            self.usync_names.insert(key.clone(), name.clone());
            if business {
                self.usync_verified.insert(key.clone(), ());
            }
            self.name_chat(&key, &name, business);
        }
    }

    /// Takes in the answers of the directory. Returns what is to be reported
    /// once all of them are in.
    pub fn enrich_chat_names(&mut self, results: &Vec<UsyncResult>, found: &TextMap<String>) -> (r:
        Vec<BackendEvent>)
        ensures
            final(self)@ == with_directory_names(
                old(self)@,
                results@,
                found@,
                old(self)@.pushnames,
            ),
            seen(r@) == seq![
                BackendEventV::ChatList(snapshot(final(self)@)),
                BackendEventV::Status("names updated"@),
            ],
    {
        let ghost pushnames = self@.pushnames;
        let mut i: usize = 0;
        assert(results@.take(0) =~= Seq::<UsyncResult>::empty());
        while i < results.len()
            invariant
                i <= results@.len(),
                pushnames == old(self)@.pushnames,
                self@.pushnames == pushnames,
                self@ == with_directory_names(
                    old(self)@,
                    results@.take(i as int),
                    found@,
                    pushnames,
                ),
            decreases results@.len() - i,
        {
            assert(results@.take(i as int + 1).drop_last() =~= results@.take(i as int));
            let name: Option<String> = name_of_result(&results[i], found, &self.pushnames);
            self.apply_directory_name(&results[i], found, name, Ghost(pushnames));
            i += 1;
        }
        assert(results@.take(i as int) =~= results@);
        let mut events: Vec<BackendEvent> = no_events();
        push_event(&mut events, BackendEvent::ChatList(self.sorted_chat_snapshot()));
        push_event(&mut events, BackendEvent::Status(owned("names updated")));
        assert(seen(events@) =~= seq![
            BackendEventV::ChatList(snapshot(self@)),
            BackendEventV::Status("names updated"@),
        ]);
        events
    }
}

/// The view of the account's own addresses.
pub open spec fn own_of(own: Option<(Option<String>, Option<String>)>) -> Option<
    (Option<Seq<char>>, Option<Seq<char>>),
> {
    match own {
        Some((lid, pn)) => Some((opt_text(lid), opt_text(pn))),
        None => None,
    }
}

/// The name that the directory, or else the phone number, gives a peer.
pub fn name_of_result(
    r: &UsyncResult,
    found: &TextMap<String>,
    pushnames: &TextMap<String>,
) -> (name: Option<String>)
    ensures
        opt_text(name) == directory_name(*r, found@, pushnames@),
{
    let mut name: Option<String> = said(&r.username);
    if name.is_none() {
        if let Some(v) = &r.verified_name {
            name = said(v);
        }
    }
    if name.is_none() && r.jid.is_lid() {
        if let Some(pn) = &r.pn_jid {
            name = Some(format_pn(pn.user_base().as_str()));
        }
    }
    if name.is_none() && r.jid.is_lid() {
        if let Some(pn) = found.get(&r.jid.user_base()) {
            name = Some(name_from_lid_pn(pn.as_str(), pushnames));
        }
    }
    said(&name)
}


// Requests of the user.

/// The newest message of a chat that others wrote; of several, the last.
pub open spec fn newest_incoming(msgs: Seq<MessageV>) -> Option<MessageV>
    decreases msgs.len(),
{
    if msgs.len() == 0 {
        None
    } else {
        let rest = newest_incoming(msgs.drop_last());
        let m = msgs.last();
        if m.from_me {
            rest
        } else {
            match rest {
                Some(x) => if m.timestamp >= x.timestamp {
                    Some(m)
                } else {
                    Some(x)
                },
                None => Some(m),
            }
        }
    }
}

/// What marking a chat as read sends: the message up to which it was read, and
/// in a group its author.
#[derive(Debug)]
pub struct ReadReceipt {
    pub message_id: MessageId,
    pub author: Option<JidParts>,
}

/// The author that a receipt names: in a group, where the address can be read.
pub open spec fn receipt_author(group: bool, m: MessageV) -> Option<
    (Seq<char>, Seq<char>, Seq<char>),
> {
    match m.author_id {
        Some(a) => if group {
            jid_of(a)
        } else {
            None
        },
        None => None,
    }
}

/// The chats with those of two ids marked as read.
pub open spec fn read_rows(chats: Seq<ChatV>, a: ChatIdV, b: ChatIdV) -> Seq<ChatV> {
    chats.map_values(
        |c: ChatV|
            if c.id == a || c.id == b {
                ChatV { unread: false, unread_count: 0, ..c }
            } else {
                c
            },
    )
}

/// The first of the keys for which the presence is known, and what is known.
pub open spec fn known_presence(
    m: Map<Seq<char>, (bool, Option<i64>)>,
    keys: Seq<Seq<char>>,
) -> Option<(bool, Option<i64>)>
    decreases keys.len(),
{
    if keys.len() == 0 {
        None
    } else if m.dom().contains(keys[0]) {
        Some(m[keys[0]])
    } else {
        known_presence(m, keys.skip(1))
    }
}

/// The status of a peer: the presence known under any of its keys.
pub open spec fn peer_status(st: WaV, jid: (Seq<char>, Seq<char>, Seq<char>), now: int) -> Option<
    Seq<char>,
> {
    if !(is_pn(jid) || is_lid(jid)) || peer_chat(st, jid) is None {
        None
    } else {
        match known_presence(st.presence, presence_keys_of(jid, st.lid_pn)) {
            Some((online, last_seen)) => presence_text(online, last_seen, now),
            None => None,
        }
    }
}

/// A message that the user sent.
pub open spec fn sent_message(
    chat: ChatIdV,
    id: Seq<char>,
    text: Seq<char>,
    reply_to: Option<Seq<char>>,
    at: i64,
) -> MessageV {
    MessageV {
        message_id: id,
        chat,
        sender: "You"@,
        author_id: None,
        text,
        timestamp: at,
        from_me: true,
        msg_actions: wa_actions(true),
        media: None,
        reply_to_id: reply_to,
        reply_ctx: None,
        pending: false,
        failed: false,
    }
}

/// The account after the user sent a message.
pub open spec fn with_sent(st: WaV, chat: ChatIdV, m: MessageV) -> WaV {
    let st1 = WaV { stanzas: st.stanzas.insert(m.message_id, (chat, m.message_id)), ..st };
    let st2 = if message_ids(history_of(st1, chat)).contains(m.message_id) {
        st1
    } else {
        with_message(st1, chat, m)
    };
    WaV {
        chats: read_rows(st2.chats, chat, chat),
        previews: if chat_ids(st2.chats).contains(chat) {
            st2.previews.insert(chat, "You: "@ + m.text)
        } else {
            st2.previews
        },
        ..st2
    }
}

impl WhatsAppState {
    /// An opaque identity whose phone number is still to be looked up, in an
    /// address.
    pub fn unknown_lid(&self, address: &str) -> (r: Option<JidParts>)
        ensures
            match r {
                Some(j) => jid_of(address@) == Some(j.parts()) && is_lid(j.parts())
                    && !self@.lid_pn.dom().contains(user_base_of(j.user@)),
                None => match jid_of(address@) {
                    Some(jid) => !is_lid(jid) || self@.lid_pn.dom().contains(user_base_of(jid.0)),
                    None => true,
                },
            },
    {
        match JidParts::parse(address) {
            Some(jid) => {
                if jid.is_lid() && !self.lid_pn.contains_key(&jid.user_base()) {
                    Some(jid)
                } else {
                    None
                }
            },
            None => None,
        }
    }

    /// What marking a chat as read sends, and the chat it is for.
    pub fn read_receipt(&self, jid: &JidParts, address: &str) -> (r: (ChatId, Option<ReadReceipt>))
        ensures
            r.0@ == folded_key(address@, self@),
            match newest_incoming(history_of(self@, folded_key(address@, self@))) {
                Some(m) => r.1 is Some && r.1.unwrap().message_id@ == m.message_id && (
                match r.1.unwrap().author {
                    Some(a) => receipt_author(is_group(jid.parts()), m) == Some(a.parts()),
                    None => receipt_author(is_group(jid.parts()), m) is None,
                }),
                None => r.1 is None,
            },
    {
        let chat: ChatId = self.fold_lid_key(address);
        let h: Vec<Message> = self.copy_history(&chat);
        let ghost all = seen(h@);
        let mut best: Option<usize> = None;
        let mut i: usize = 0;
        assert(all.take(0) =~= Seq::<MessageV>::empty());
        while i < h.len()
            invariant
                i <= h@.len(),
                all == seen(h@),
                match best {
                    Some(b) => b < i && newest_incoming(all.take(i as int)) == Some(h@[b as int]@),
                    None => newest_incoming(all.take(i as int)) is None,
                },
            decreases h@.len() - i,
        {
            assert(all.take(i as int + 1).drop_last() =~= all.take(i as int));
            assert(all[i as int] == h@[i as int]@);
            if !h[i].from_me {
                match best {
                    Some(b) => {
                        if h[i].timestamp >= h[b].timestamp {
                            best = Some(i);
                        }
                    },
                    None => {
                        best = Some(i);
                    },
                }
            }
            i += 1;
        }
        assert(all.take(i as int) =~= all);
        let receipt: Option<ReadReceipt> = match best {
            Some(b) => {
                let author: Option<JidParts> = match &h[b].author_id {
                    Some(a) => if jid.is_group() {
                        JidParts::parse(a.as_str())
                    } else {
                        None
                    },
                    None => None,
                };
                Some(ReadReceipt { message_id: h[b].message_id.clone(), author })
            },
            None => None,
        };
        (chat, receipt)
    }

    fn clear_unread(&mut self, a: &ChatId, b: &ChatId)
        ensures
            final(self)@ == (WaV { chats: read_rows(old(self)@.chats, a@, b@), ..old(self)@ }),
    {
        let ghost st = self@;
        let ghost all = read_rows(st.chats, a@, b@);
        let n: usize = self.chats.len();
        let mut i: usize = 0;
        assert(seen(self.chats@) =~= all.take(0) + st.chats.skip(0));
        while i < n
            invariant
                i <= n,
                n == st.chats.len(),
                self.chats@.len() == n,
                st == old(self)@,
                all == read_rows(st.chats, a@, b@),
                self@ == (WaV { chats: all.take(i as int) + st.chats.skip(i as int), ..st }),
            decreases n - i,
        {
            let ghost before = self.chats@;
            assert(seen(before)[i as int] == before[i as int]@);
            assert((all.take(i as int) + st.chats.skip(i as int))[i as int] == st.chats[i as int]);
            if self.chats[i].id == *a || self.chats[i].id == *b {
                let mut c: Chat = self.chats[i].clone();
                c.unread = false;
                c.unread_count = 0;
                let ghost cv = c@;
                self.chats.set(i, c);
                assert(seen(self.chats@) =~= seen(before).update(i as int, cv));
            }
            assert(seen(self.chats@) =~= all.take(i as int + 1) + st.chats.skip(i as int + 1));
            i += 1;
        }
        assert(all.take(n as int) + st.chats.skip(n as int) =~= all);
    }

    /// Marks a chat, under the id the user opened and under the one it stands
    /// for, as read. Returns what is to be reported.
    pub fn set_read(&mut self, chat: &ChatId, canonical: &ChatId) -> (r: BackendEvent)
        ensures
            final(self)@ == (WaV {
                chats: read_rows(old(self)@.chats, chat@, canonical@),
                ..old(self)@
            }),
            r@ == (BackendEventV::UnreadUpdated { chat: chat@, unread: false, unread_count: 0 }),
    {
        self.clear_unread(chat, canonical);
        BackendEvent::UnreadUpdated { chat: chat.clone(), unread: false, unread_count: 0 }
    }

    /// The messages of a chat, from oldest to newest.
    pub fn history(&self, chat: &ChatId) -> (r: Vec<Message>)
        ensures
            seen(r@) == ordered::<Message>(
                history_of(
                    self@,
                    match chat@ {
                        ChatIdV::WhatsApp(raw) => folded_key(raw, self@),
                        other => other,
                    },
                ),
            ),
    {
        let id: ChatId = match chat {
            ChatId::WhatsApp(raw) => self.fold_lid_key(raw.as_str()),
            other => other.clone(),
        };
        let mut h: Vec<Message> = self.copy_history(&id);
        order(&mut h);
        h
    }

    /// The status of a peer at a given time.
    pub fn status(&self, jid: &JidParts, at: i64) -> (r: Option<String>)
        ensures
            opt_text(r) == peer_status(self@, jid.parts(), at as int),
    {
        let peer: bool = jid.is_pn() || jid.is_lid();
        if !peer || self.find_peer_chat(jid).is_none() {
            return None;
        }
        let keys: Vec<String> = self.presence_keys(jid);
        let ghost all = views(keys@);
        let mut i: usize = 0;
        assert(all.skip(0) =~= all);
        while i < keys.len()
            invariant
                i <= keys@.len(),
                all == views(keys@),
                all == presence_keys_of(jid.parts(), self@.lid_pn),
                is_pn(jid.parts()) || is_lid(jid.parts()),
                peer_chat(self@, jid.parts()) is Some,
                known_presence(self@.presence, all) == known_presence(
                    self@.presence,
                    all.skip(i as int),
                ),
            decreases keys@.len() - i,
        {
            assert(all.skip(i as int)[0] == keys@[i as int]@);
            assert(all.skip(i as int).skip(1) =~= all.skip(i as int + 1));
            if let Some(p) = self.presence.get(&keys[i]) {
                return presence_label_at(p.0, p.1, at);
            }
            i += 1;
        }
        None
    }

    /// The message that a message of a chat quotes.
    pub fn reply_context(&self, chat: &ChatId, message_id: &MessageId) -> (r: Option<ReplyContext>)
        ensures
            opt_view(r) == quoted_by(history_of(self@, chat@), message_id@),
    {
        match self.history.get(chat) {
            Some(h) => match message_position(&h.messages, message_id) {
                Some(i) => {
                    assert(seen(h.messages@)[i as int] == h.messages@[i as int]@);
                    match &h.messages[i].reply_to_id {
                        Some(q) => quote_of(&h.messages, q),
                        None => None,
                    }
                },
                None => None,
            },
            None => None,
        }
    }

    /// Keeps a message that the user sent, under the id the server gave it.
    /// Returns it.
    pub fn record_sent(
        &mut self,
        chat: &ChatId,
        id: String,
        text: &str,
        reply_to: Option<MessageId>,
        at: i64,
    ) -> (r: Message)
        ensures
            r@ == sent_message(chat@, id@, text@, opt_view(reply_to), at),
            final(self)@ == with_sent(old(self)@, chat@, r@),
    {
        let sent = Message {
            message_id: MessageId(id.clone()),
            chat: chat.clone(),
            sender: owned("You"),
            author_id: None,
            text: owned(text),
            timestamp: at,
            from_me: true,
            msg_actions: message_actions(true),
            media: None,
            reply_to_id: reply_to,
            reply_ctx: None,
            pending: false,
            failed: false,
        };
        self.by_stanza_id.insert(id, (chat.clone(), sent.message_id.clone()));
        if !self.knows_message(chat, &sent.message_id) {
            self.add_message(chat, sent.clone());
        }
        if has_chat(&self.chats, chat) {
            self.previews.insert(chat.clone(), joined("You: ", text));
        }
        self.clear_unread(chat, chat);
        sent
    }
}

/// Who a request on a chat goes to.
#[derive(Debug, PartialEq, Eq)]
pub enum WaTarget {
    Address(JidParts),
    /// The chat is another provider's.
    Foreign,
    /// The chat's address cannot be read: what is reported.
    Malformed(String),
}

/// Who a request on a chat goes to.
pub fn wa_target(chat: &ChatId) -> (r: WaTarget)
    ensures
        match chat@ {
            ChatIdV::WhatsApp(raw) => match jid_of(raw) {
                Some(p) => r is Address && (r->Address_0).parts() == p,
                None => r is Malformed && chat_jid_error(jid_read(raw)) == Some(
                    (r->Malformed_0)@,
                ),
            },
            _ => r is Foreign,
        },
{
    match chat {
        ChatId::WhatsApp(raw) => match JidParts::of_chat(raw.as_str()) {
            Ok(j) => WaTarget::Address(j),
            Err(report) => WaTarget::Malformed(report),
        },
        _ => WaTarget::Foreign,
    }
}

/// The outcome of the pairing step: done once the account is paired.
pub fn pairing_step(authenticated: bool) -> (r: LoginStepState)
    ensures
        r == if authenticated {
            LoginStepState::Done
        } else {
            LoginStepState::NextStep
        },
{
    if authenticated {
        LoginStepState::Done
    } else {
        LoginStepState::NextStep
    }
}

/// The chats of this provider among saved ones, to begin with.
pub fn seed_chats(saved: &Vec<Chat>) -> (r: Vec<Chat>)
    ensures
        seen(r@) == seen(saved@).filter(|c: ChatV| c.id is WhatsApp),
{
    let ghost all = seen(saved@);
    let ghost p = |c: ChatV| c.id is WhatsApp;
    let mut out: Vec<Chat> = Vec::new();
    let mut i: usize = 0;
    proof {
        reveal(Seq::filter);
    }
    assert(seen(out@) =~= all.take(0).filter(p));
    while i < saved.len()
        invariant
            i <= saved@.len(),
            all == seen(saved@),
            p == (|c: ChatV| c.id is WhatsApp),
            seen(out@) == all.take(i as int).filter(p),
        decreases saved@.len() - i,
    {
        proof {
            reveal(Seq::filter);
            assert(all.take(i as int + 1).drop_last() =~= all.take(i as int));
        }
        let ghost before = out@;
        let ours: bool = match &saved[i].id {
            ChatId::WhatsApp(_) => true,
            _ => false,
        };
        if ours {
            out.push(saved[i].clone());
            assert(seen(out@) =~= seen(before).push(all[i as int]));
        }
        i += 1;
    }
    assert(all.take(i as int) =~= all);
    out
}

}
