//! The Telegram account: messages, updates, reconnection, login, and when the
//! chat list is fetched.
use vstd::prelude::*;

use crate::backend::{
    media_label, opt_text, opt_view, BackendError, BackendErrorV, BackendEvent, BackendEventV,
    Chat, ChatId, ChatIdV, ChatV, LoginStepState, MediaKind, MediaKindV, Message, MessageAction,
    MessageId, MessageMedia, MessageMediaV, MessageV, ReplyContext, ReplyContextV,
};
use crate::helpers::{ago, relative_at};
use crate::keys::{ascii_lower, to_ascii_lower};
use crate::order::seen;
use crate::text::{
    blank, contains, decimal, decimal_int, format_i64, format_u64, from_chars, includes, int_value,
    is_blank, joined, joined3, owned, to_chars,
};

verus! {

/// The media of a Telegram message, as far as it matters here.
#[derive(Debug)]
pub enum TgMedia {
    Photo,
    Document { video: bool, voice: bool, name: Option<String>, duration_secs: Option<u32> },
    Sticker,
    /// Places, polls, web pages and the like.
    Other,
}

/// A Telegram message.
#[derive(Debug)]
pub struct TgMessage {
    pub id: i32,
    pub text: String,
    pub outgoing: bool,
    pub sender_name: Option<String>,
    pub peer_name: Option<String>,
    /// The number of the chat, where the chat itself is known.
    pub peer_bare_id: Option<i64>,
    /// The number of the chat in the message.
    pub peer_id: Option<i64>,
    pub date: i64,
    pub reply_to: Option<i32>,
    pub media: Option<TgMedia>,
}

/// When a user was last there.
#[derive(Clone, Copy, Debug, PartialEq, Eq, Structural)]
pub enum TgStatus {
    Empty,
    Online,
    Offline { was_online: i32 },
    Recently,
    LastWeek,
    LastMonth,
}

/// An update of the server.
#[derive(Debug)]
pub enum TgUpdate {
    /// A message, with the one it quotes where that could be fetched.
    NewMessage { msg: TgMessage, reply_ctx: Option<ReplyContext> },
    MessageEdited(TgMessage),
    MessageDeleted { channel_id: Option<i64>, ids: Vec<i32> },
    UserStatus { user_id: i64, status: TgStatus },
    /// A chat was read elsewhere.
    ReadInbox { peer_id: i64, still_unread_count: i32 },
    Other,
}

/// A dialog of the server.
#[derive(Debug)]
pub struct TgDialog {
    pub bare_id: Option<i64>,
    pub name: Option<String>,
    pub last_message_ts: Option<i64>,
    pub unread_count: i32,
    pub pinned: bool,
    pub status: Option<String>,
}

/// What can be done with a message.
pub open spec fn tg_actions(from_me: bool) -> Seq<MessageAction> {
    if from_me {
        seq![MessageAction::Reply, MessageAction::Edit, MessageAction::Delete]
    } else {
        seq![MessageAction::Reply]
    }
}

/// What can be done with a message.
pub fn message_actions(from_me: bool) -> (r: Vec<MessageAction>)
    ensures
        r@ == tg_actions(from_me),
{
    let mut actions: Vec<MessageAction> = Vec::new();
    actions.push(MessageAction::Reply);
    if from_me {
        actions.push(MessageAction::Edit);
        actions.push(MessageAction::Delete);
    }
    assert(actions@ =~= tg_actions(from_me));
    actions
}

/// The kind of a message's media.
pub open spec fn tg_kind(m: TgMedia) -> MediaKindV {
    match m {
        TgMedia::Photo => MediaKindV::Image,
        TgMedia::Document { video, voice, duration_secs, .. } => if video {
            MediaKindV::Video
        } else if voice {
            MediaKindV::Audio { duration_secs, is_voice: true, waveform: None }
        } else {
            MediaKindV::Document
        },
        TgMedia::Sticker => MediaKindV::Sticker,
        TgMedia::Other => MediaKindV::Unsupported,
    }
}

/// The media of a message: its text, where there is any, is the caption.
pub open spec fn tg_media(m: TgMessage) -> Option<MessageMediaV> {
    match m.media {
        Some(media) => Some(
            MessageMediaV {
                kind: tg_kind(media),
                caption: if blank(m.text@) {
                    None
                } else {
                    Some(m.text@)
                },
                file_name: match media {
                    TgMedia::Document { name, .. } => opt_text(name),
                    _ => None,
                },
            },
        ),
        None => None,
    }
}

/// The kind of a message's media.
pub fn telegram_media_kind(media: &TgMedia) -> (r: MediaKind)
    ensures
        r@ == tg_kind(*media),
{
    match media {
        TgMedia::Photo => MediaKind::Image,
        TgMedia::Document { video, voice, duration_secs, .. } => {
            if *video {
                MediaKind::Video
            } else if *voice {
                MediaKind::Audio { duration_secs: *duration_secs, is_voice: true, waveform: None }
            } else {
                MediaKind::Document
            }
        },
        TgMedia::Sticker => MediaKind::Sticker,
        TgMedia::Other => MediaKind::Unsupported,
    }
}

/// The media of a message.
pub fn telegram_message_media(msg: &TgMessage) -> (r: Option<MessageMedia>)
    ensures
        opt_view(r) == tg_media(*msg),
{
    match &msg.media {
        Some(media) => {
            let caption: Option<String> = if is_blank(msg.text.as_str()) {
                None
            } else {
                Some(msg.text.clone())
            };
            let file_name: Option<String> = match media {
                TgMedia::Document { name, .. } => name.clone(),
                _ => None,
            };
            Some(MessageMedia { kind: telegram_media_kind(media), caption, file_name })
        },
        None => None,
    }
}

/// A message in one line: the caption of media, else its kind; else the text.
pub open spec fn tg_text(m: TgMessage) -> Seq<char> {
    match tg_media(m) {
        Some(media) => match media.caption {
            Some(c) => c,
            None => media_label(media.kind) + ", click to show"@,
        },
        None => m.text@,
    }
}

/// A message in one line.
pub fn telegram_message_text(msg: &TgMessage) -> (r: String)
    ensures
        r@ == tg_text(*msg),
{
    match telegram_message_media(msg) {
        Some(media) => match media.caption {
            Some(c) => c,
            None => joined(media.kind.label(), ", click to show"),
        },
        None => msg.text.clone(),
    }
}

/// Who a message is from.
pub open spec fn tg_sender(m: TgMessage, from_me: bool) -> Seq<char> {
    if from_me {
        "You"@
    } else {
        match m.sender_name {
            Some(n) => n@,
            None => match m.peer_name {
                Some(n) => n@,
                None => "Unknown"@,
            },
        }
    }
}

/// Who a message is from.
pub fn telegram_message_sender(msg: &TgMessage, from_me: bool) -> (r: String)
    ensures
        r@ == tg_sender(*msg, from_me),
{
    if from_me {
        return owned("You");
    }
    match &msg.sender_name {
        Some(n) => n.clone(),
        None => match &msg.peer_name {
            Some(n) => n.clone(),
            None => owned("Unknown"),
        },
    }
}

/// Whether a message is the user's: sent from here, or in their own chat.
pub open spec fn tg_from_me(m: TgMessage, chat: ChatIdV, own_chat: Option<ChatIdV>) -> bool {
    m.outgoing || own_chat == Some(chat)
}

/// A Telegram message as a message of a chat.
pub open spec fn tg_message(
    m: TgMessage,
    chat: ChatIdV,
    own_chat: Option<ChatIdV>,
    reply_ctx: Option<ReplyContextV>,
) -> MessageV {
    let from_me = tg_from_me(m, chat, own_chat);
    MessageV {
        message_id: decimal_int(m.id as int),
        chat,
        sender: tg_sender(m, from_me),
        author_id: None,
        text: match tg_media(m) {
            Some(media) => match media.caption {
                Some(c) => media_label(media.kind) + ": "@ + c,
                None => media_label(media.kind) + ", click to show"@,
            },
            None => m.text@,
        },
        timestamp: m.date,
        from_me,
        msg_actions: tg_actions(from_me),
        media: tg_media(m),
        reply_to_id: match m.reply_to {
            Some(id) => Some(decimal_int(id as int)),
            None => None,
        },
        reply_ctx,
        pending: false,
        failed: false,
    }
}

fn same_chat(own: &Option<ChatId>, chat: &ChatId) -> (r: bool)
    ensures
        r == (opt_view(*own) == Some(chat@)),
{
    match own {
        Some(id) => *id == *chat,
        None => false,
    }
}

/// A Telegram message as a message of a chat.
pub fn normalize_telegram_message(
    msg: &TgMessage,
    chat: &ChatId,
    own_chat: &Option<ChatId>,
    reply_ctx: Option<ReplyContext>,
) -> (r: Message)
    ensures
        r@ == tg_message(*msg, chat@, opt_view(*own_chat), opt_view(reply_ctx)),
{
    let from_me: bool = msg.outgoing || same_chat(own_chat, chat);
    let media: Option<MessageMedia> = telegram_message_media(msg);
    let text: String = match &media {
        Some(m) => match &m.caption {
            Some(c) => joined3(m.kind.label(), ": ", c.as_str()),
            None => joined(m.kind.label(), ", click to show"),
        },
        None => msg.text.clone(),
    };
    let reply_to_id: Option<MessageId> = match msg.reply_to {
        Some(id) => Some(MessageId(format_i64(id as i64))),
        None => None,
    };
    Message {
        message_id: MessageId(format_i64(msg.id as i64)),
        chat: chat.clone(),
        sender: telegram_message_sender(msg, from_me),
        author_id: None,
        text,
        timestamp: msg.date,
        from_me,
        msg_actions: message_actions(from_me),
        media,
        reply_to_id,
        reply_ctx,
        pending: false,
        failed: false,
    }
}

/// The id of a message is the number Telegram gave it, and is read back as
/// that number.
pub proof fn telegram_ids_round_trip(
    m: TgMessage,
    chat: ChatIdV,
    own_chat: Option<ChatIdV>,
    reply_ctx: Option<ReplyContextV>,
)
    ensures
        int_value(tg_message(m, chat, own_chat, reply_ctx).message_id) == Some(m.id as int),
{
    crate::text::decimal_round_trip(m.id as int);
}

/// The chat of a message, where its number is usable.
pub open spec fn tg_chat(m: TgMessage) -> Option<i64> {
    let id = match m.peer_bare_id {
        Some(n) => Some(n),
        None => m.peer_id,
    };
    match id {
        Some(n) => if n != 0 {
            Some(n)
        } else {
            None
        },
        None => None,
    }
}

/// The chat of a message, where its number is usable.
pub fn message_chat_id(msg: &TgMessage) -> (r: Option<ChatId>)
    ensures
        opt_view(r) == match tg_chat(*msg) {
            Some(n) => Some(ChatIdV::Telegram(n)),
            None => None,
        },
{
    let id: Option<i64> = match msg.peer_bare_id {
        Some(n) => Some(n),
        None => msg.peer_id,
    };
    match id {
        Some(n) => {
            if n != 0 {
                Some(ChatId::Telegram(n))
            } else {
                None
            }
        },
        None => None,
    }
}

/// The name of a message's chat.
pub fn pretty_peer_name(msg: &TgMessage, fallback: &str) -> (r: String)
    ensures
        r@ == match msg.peer_name {
            Some(n) => n@,
            None => fallback@,
        },
{
    match &msg.peer_name {
        Some(n) => n.clone(),
        None => owned(fallback),
    }
}

/// When a user was last there, in words.
pub open spec fn tg_status(s: TgStatus, now: int) -> Option<Seq<char>> {
    match s {
        TgStatus::Empty => None,
        TgStatus::Online => Some("online"@),
        TgStatus::Offline { was_online } => Some("last seen "@ + ago(now, was_online as int)),
        TgStatus::Recently => Some("recently"@),
        TgStatus::LastWeek => Some("last week"@),
        TgStatus::LastMonth => Some("last month"@),
    }
}

/// When a user was last there, in words, at a given time.
pub fn telegram_status_label(status: TgStatus, now: i64) -> (r: Option<String>)
    ensures
        opt_text(r) == tg_status(status, now as int),
{
    match status {
        TgStatus::Empty => None,
        TgStatus::Online => Some(owned("online")),
        TgStatus::Offline { was_online } => Some(
            joined("last seen ", relative_at(now, was_online as i64).as_str()),
        ),
        TgStatus::Recently => Some(owned("recently")),
        TgStatus::LastWeek => Some(owned("last week")),
        TgStatus::LastMonth => Some(owned("last month")),
    }
}

/// A row that says only these things of a chat.
pub open spec fn tg_row(id: i64, name: Seq<char>, ts: Option<i64>, status: Option<Seq<char>>) -> ChatV {
    ChatV {
        id: ChatIdV::Telegram(id),
        contact_name: name,
        last_message_ts: ts,
        status,
        fixed: false,
        scroll: 0,
        unread: false,
        unread_count: 0,
        verified: false,
    }
}

fn row(id: i64, name: String, ts: Option<i64>, status: Option<String>) -> (r: Chat)
    ensures
        r@ == tg_row(id, name@, ts, opt_text(status)),
{
    Chat {
        id: ChatId::Telegram(id),
        contact_name: name,
        last_message_ts: ts,
        status,
        fixed: false,
        scroll: 0,
        unread: false,
        unread_count: 0,
        verified: false,
    }
}

/// What an update leads to: what is reported, and whether the chat list that
/// was fetched no longer holds.
pub open spec fn update_step(u: TgUpdate, own_chat: Option<ChatIdV>, now: int) -> (
    Seq<BackendEventV>,
    bool,
) {
    match u {
        TgUpdate::NewMessage { msg, reply_ctx } => match tg_chat(msg) {
            Some(id) => {
                let chat = ChatIdV::Telegram(id);
                let sender = tg_sender(msg, tg_from_me(msg, chat, own_chat));
                (
                    seq![
                        BackendEventV::MessageReceived(
                            tg_message(msg, chat, own_chat, opt_view(reply_ctx)),
                        ),
                        BackendEventV::ChatUpdated(
                            tg_row(
                                id,
                                match msg.peer_name {
                                    Some(n) => n@,
                                    None => sender,
                                },
                                Some(msg.date),
                                None,
                            ),
                        ),
                    ],
                    true,
                )
            },
            None => (Seq::empty(), false),
        },
        TgUpdate::MessageEdited(msg) => match tg_chat(msg) {
            Some(id) => (
                seq![
                    BackendEventV::MessageUpdated(
                        tg_message(msg, ChatIdV::Telegram(id), own_chat, None),
                    ),
                ],
                true,
            ),
            None => (Seq::empty(), false),
        },
        TgUpdate::MessageDeleted { channel_id, ids } => if ids@.len() == 0 {
            (Seq::empty(), false)
        } else {
            (
                seq![
                    BackendEventV::MessageDeleted {
                        chat: match channel_id {
                            Some(c) => Some(ChatIdV::Telegram(c)),
                            None => None,
                        },
                        message_ids: ids@.map_values(|i: i32| decimal_int(i as int)),
                    },
                ],
                true,
            )
        },
        TgUpdate::UserStatus { user_id, status } => (
            seq![
                BackendEventV::ChatUpdated(
                    tg_row(user_id, Seq::empty(), None, tg_status(status, now)),
                ),
            ],
            false,
        ),
        TgUpdate::ReadInbox { peer_id, still_unread_count } => (
            seq![
                BackendEventV::UnreadUpdated {
                    chat: ChatIdV::Telegram(peer_id),
                    unread: still_unread_count > 0,
                    unread_count: still_unread_count,
                },
            ],
            true,
        ),
        TgUpdate::Other => (Seq::empty(), false),
    }
}

fn push_event(out: &mut Vec<BackendEvent>, e: BackendEvent)
    ensures
        seen(final(out)@) == seen(old(out)@).push(e@),
{
    let ghost before = out@;
    let ghost v = e@;
    out.push(e);
    assert(seen(out@) =~= seen(before).push(v));
}

fn id_texts(ids: &Vec<i32>) -> (r: Vec<MessageId>)
    ensures
        seen(r@) == ids@.map_values(|i: i32| decimal_int(i as int)),
{
    let ghost all = ids@.map_values(|i: i32| decimal_int(i as int));
    let mut out: Vec<MessageId> = Vec::new();
    let mut i: usize = 0;
    assert(seen(out@) =~= all.take(0));
    while i < ids.len()
        invariant
            i <= ids@.len(),
            all == ids@.map_values(|i: i32| decimal_int(i as int)),
            seen(out@) == all.take(i as int),
        decreases ids@.len() - i,
    {
        let ghost before = out@;
        out.push(MessageId(format_i64(ids[i] as i64)));
        assert(seen(out@) =~= seen(before).push(all[i as int]));
        assert(all.take(i as int + 1) =~= all.take(i as int).push(all[i as int]));
        i += 1;
    }
    assert(all.take(i as int) =~= all);
    out
}

/// What an update leads to at a given time. `own_chat` is the user's own chat.
pub fn handle_update(update: TgUpdate, own_chat: &Option<ChatId>, now: i64) -> (r: (
    Vec<BackendEvent>,
    bool,
))
    ensures
        (seen(r.0@), r.1) == update_step(update, opt_view(*own_chat), now as int),
{
    let mut events: Vec<BackendEvent> = Vec::new();
    let ghost goal = update_step(update, opt_view(*own_chat), now as int).0;
    assert(seen(events@) =~= Seq::<BackendEventV>::empty());
    let stale: bool = match update {
        TgUpdate::NewMessage { msg, reply_ctx } => match message_chat_id(&msg) {
            Some(ChatId::Telegram(id)) => {
                let chat: ChatId = ChatId::Telegram(id);
                let from_me: bool = msg.outgoing || same_chat(own_chat, &chat);
                let sender: String = telegram_message_sender(&msg, from_me);
                let name: String = pretty_peer_name(&msg, sender.as_str());
                let message: Message = normalize_telegram_message(
                    &msg,
                    &chat,
                    own_chat,
                    reply_ctx,
                );
                push_event(&mut events, BackendEvent::MessageReceived(message));
                push_event(
                    &mut events,
                    BackendEvent::ChatUpdated(row(id, name, Some(msg.date), None)),
                );
                assert(seen(events@) =~= goal);
                true
            },
            _ => false,
        },
        TgUpdate::MessageEdited(msg) => match message_chat_id(&msg) {
            Some(chat) => {
                let message: Message = normalize_telegram_message(&msg, &chat, own_chat, None);
                push_event(&mut events, BackendEvent::MessageUpdated(message));
                assert(seen(events@) =~= goal);
                true
            },
            None => false,
        },
        TgUpdate::MessageDeleted { channel_id, ids } => {
            if ids.len() == 0 {
                false
            } else {
                let chat: Option<ChatId> = match channel_id {
                    Some(c) => Some(ChatId::Telegram(c)),
                    None => None,
                };
                push_event(
                    &mut events,
                    BackendEvent::MessageDeleted { chat, message_ids: id_texts(&ids) },
                );
                assert(seen(events@) =~= goal);
                true
            }
        },
        TgUpdate::UserStatus { user_id, status } => {
            push_event(
                &mut events,
                BackendEvent::ChatUpdated(
                    row(user_id, String::new(), None, telegram_status_label(status, now)),
                ),
            );
            assert(seen(events@) =~= goal);
            false
        },
        TgUpdate::ReadInbox { peer_id, still_unread_count } => {
            push_event(
                &mut events,
                BackendEvent::UnreadUpdated {
                    chat: ChatId::Telegram(peer_id),
                    unread: still_unread_count > 0,
                    unread_count: still_unread_count,
                },
            );
            assert(seen(events@) =~= goal);
            true
        },
        TgUpdate::Other => false,
    };
    (events, stale)
}

// Reconnection.

/// A text with ASCII letters in lower case.
pub open spec fn ascii_lowered(s: Seq<char>) -> Seq<char> {
    s.map_values(|c: char| ascii_lower(c))
}

fn to_ascii_lowercase(s: &str) -> (r: String)
    ensures
        r@ == ascii_lowered(s@),
{
    let x: Vec<char> = to_chars(s);
    let mut out: Vec<char> = Vec::new();
    let mut i: usize = 0;
    let ghost goal = ascii_lowered(s@);
    assert(out@ =~= goal.take(0));
    while i < x.len()
        invariant
            x@ == s@,
            i <= x@.len(),
            goal == ascii_lowered(s@),
            out@ == goal.take(i as int),
        decreases x@.len() - i,
    {
        out.push(to_ascii_lower(x[i]));
        i += 1;
        assert(goal.take(i as int) =~= goal.take(i as int - 1).push(goal[i as int - 1]));
    }
    assert(goal.take(i as int) =~= goal);
    from_chars(&out)
}

/// Whether a failure means that the session is no longer valid.
pub open spec fn session_invalid(reason: Seq<char>, unauthenticated: bool) -> bool {
    let low = ascii_lowered(reason);
    ||| includes(low, "not authenticated"@)
    ||| includes(low, "session_password_needed"@)
    ||| includes(low, "session_revoked"@)
    ||| includes(low, "session_invalid"@)
    ||| includes(low, "auth_key_unregistered"@)
    ||| includes(low, "auth_key_invalid"@)
    ||| includes(low, "invalid session"@)
    ||| includes(low, "invalid auth"@)
    ||| unauthenticated
}

/// Whether a failure means that the session is no longer valid.
pub fn is_session_invalid(reason: &str, unauthenticated: bool) -> (r: bool)
    ensures
        r == session_invalid(reason@, unauthenticated),
{
    let low: String = to_ascii_lowercase(reason);
    let s: &str = low.as_str();
    contains(s, "not authenticated") || contains(s, "session_password_needed") || contains(
        s,
        "session_revoked",
    ) || contains(s, "session_invalid") || contains(s, "auth_key_unregistered") || contains(
        s,
        "auth_key_invalid",
    ) || contains(s, "invalid session") || contains(s, "invalid auth") || unauthenticated
}

/// Two to the power of `n`.
pub open spec fn doubled(n: int) -> int
    decreases n,
{
    if n <= 0 {
        1
    } else {
        2 * doubled(n - 1)
    }
}

/// Seconds to wait before the next attempt to connect; none at all where the
/// connection was ended on purpose. The wait doubles with every attempt, up to
/// half a minute.
pub open spec fn delay_after(reason: Seq<char>, attempt: int, unauthenticated: bool) -> int {
    let low = ascii_lowered(reason);
    if includes(low, "dropped"@) || includes(low, "quit"@) || includes(low, "shutdown"@) {
        0
    } else if includes(low, "flood_wait"@) || session_invalid(reason, unauthenticated) {
        30
    } else {
        let wait = doubled(if attempt < 5 { attempt } else { 5 });
        if wait < 30 {
            wait
        } else {
            30
        }
    }
}

/// Seconds to wait before the next attempt to connect.
pub fn reconnect_delay(reason: &str, attempt: u32, unauthenticated: bool) -> (r: u64)
    ensures
        r == delay_after(reason@, attempt as int, unauthenticated),
{
    let low: String = to_ascii_lowercase(reason);
    let s: &str = low.as_str();
    if contains(s, "dropped") || contains(s, "quit") || contains(s, "shutdown") {
        return 0;
    }
    if contains(s, "flood_wait") {
        return 30;
    }
    if is_session_invalid(reason, unauthenticated) {
        return 30;
    }
    let n: u32 = if attempt < 5 { attempt } else { 5 };
    let mut wait: u64 = 1;
    let mut i: u32 = 0;
    while i < n
        invariant
            i <= n <= 5,
            wait == doubled(i as int),
            wait <= 32,
            i == 0 ==> wait == 1,
            i == 1 ==> wait == 2,
            i == 2 ==> wait == 4,
            i == 3 ==> wait == 8,
            i == 4 ==> wait == 16,
            i == 5 ==> wait == 32,
        decreases n - i,
    {
        wait = wait * 2;
        i += 1;
    }
    if wait < 30 {
        wait
    } else {
        30
    }
}

proof fn doubled_is_positive(n: int)
    ensures
        doubled(n) >= 1,
    decreases n,
{
    if n > 0 {
        doubled_is_positive(n - 1);
    }
}

/// A wait between attempts is never longer than half a minute, and is at least
/// a second unless the connection was ended on purpose; it never gets shorter
/// from one attempt to the next.
pub proof fn reconnect_waits_are_bounded(reason: Seq<char>, attempt: int, unauthenticated: bool)
    requires
        attempt >= 0,
    ensures
        0 <= delay_after(reason, attempt, unauthenticated) <= 30,
        delay_after(reason, attempt, unauthenticated) == 0 <==> includes(
            ascii_lowered(reason),
            "dropped"@,
        ) || includes(ascii_lowered(reason), "quit"@) || includes(
            ascii_lowered(reason),
            "shutdown"@,
        ),
        delay_after(reason, attempt, unauthenticated) <= delay_after(
            reason,
            attempt + 1,
            unauthenticated,
        ),
{
    let n = if attempt < 5 { attempt } else { 5 };
    doubled_is_positive(n);
    doubled_is_positive(n + 1);
}

/// What the listener does after its stream failed.
#[derive(Debug)]
pub struct StreamFailure {
    /// What is to be reported.
    pub event: Option<BackendEvent>,
    /// Whether the connection counts as lost, so that only the user can bring
    /// it back.
    pub connection_lost: bool,
    /// Seconds to wait before another attempt; none where there is none.
    pub delay: Option<u64>,
}

/// What the listener does after its stream failed: an invalid session is
/// reported and ends it, so does the last attempt; else it waits.
pub open spec fn failure_step(
    reason: Seq<char>,
    attempt: int,
    unauthenticated: bool,
    max_attempts: int,
) -> (Option<BackendEventV>, bool, Option<int>) {
    if session_invalid(reason, unauthenticated) {
        (Some(BackendEventV::AuthInvalid(reason)), true, None)
    } else if attempt >= max_attempts {
        (Some(BackendEventV::Status("Telegram connection lost"@)), true, None)
    } else {
        let delay = delay_after(reason, attempt, unauthenticated);
        if delay == 0 {
            (None, false, None)
        } else {
            (
                Some(
                    BackendEventV::Status(
                        "Telegram disconnected — reconnecting in "@ + decimal(delay as nat) + "s"@,
                    ),
                ),
                false,
                Some(delay),
            )
        }
    }
}

/// What the listener does after its stream failed.
pub fn handle_stream_failure(
    reason: &str,
    reconnect_attempt: u32,
    unauthenticated: bool,
    max_attempts: u32,
) -> (r: StreamFailure)
    ensures
        (opt_view(r.event), r.connection_lost, match r.delay {
            Some(d) => Some(d as int),
            None => None,
        }) == failure_step(
            reason@,
            reconnect_attempt as int,
            unauthenticated,
            max_attempts as int,
        ),
{
    if is_session_invalid(reason, unauthenticated) {
        return StreamFailure {
            event: Some(BackendEvent::AuthInvalid(owned(reason))),
            connection_lost: true,
            delay: None,
        };
    }
    if reconnect_attempt >= max_attempts {
        return StreamFailure {
            event: Some(BackendEvent::Status(owned("Telegram connection lost"))),
            connection_lost: true,
            delay: None,
        };
    }
    let delay: u64 = reconnect_delay(reason, reconnect_attempt, unauthenticated);
    if delay == 0 {
        return StreamFailure { event: None, connection_lost: false, delay: None };
    }
    StreamFailure {
        event: Some(
            BackendEvent::Status(
                joined3(
                    "Telegram disconnected — reconnecting in ",
                    format_u64(delay).as_str(),
                    "s",
                ),
            ),
        ),
        connection_lost: false,
        delay: Some(delay),
    }
}

/// The most attempts to connect again before the connection counts as lost.
pub const MAX_RECONNECT_ATTEMPTS: u32 = 5;

/// Why a stream of updates ended.
#[derive(Debug)]
pub enum StreamEnd {
    /// It could not be started; the failure in words.
    NotStarted(String),
    /// It failed; the failure in words.
    Failed(String),
    /// The program is closing down, or the stream just ended.
    Closed,
}

/// The reason that is reported for the end of a stream.
pub open spec fn end_reason(e: StreamEnd) -> Option<Seq<char>> {
    match e {
        StreamEnd::NotStarted(s) => Some("Telegram update stream failed to start: "@ + s@),
        StreamEnd::Failed(s) => Some("Telegram update stream error: "@ + s@),
        StreamEnd::Closed => None,
    }
}

/// The listener between two streams.
#[derive(Debug)]
pub struct Listener {
    /// Attempts to connect since the last stream that started.
    pub attempt: u32,
    pub connection_lost: bool,
}

/// What the listener does next.
#[derive(Debug)]
pub struct ListenerNext {
    pub events: Vec<BackendEvent>,
    /// Seconds to wait before a new stream is opened; none where it stops.
    pub retry_after: Option<u64>,
}

/// What the listener reports when a stream ends, how many seconds it waits before
/// it opens a new one, and what it then is.
pub open spec fn ended_step(l: Listener, end: StreamEnd, unauthenticated: bool, shutdown: bool) -> (
    Seq<BackendEventV>,
    Option<u64>,
    Listener,
) {
    match end_reason(end) {
        None => (Seq::empty(), None, l),
        Some(reason) => {
            let (event, lost, delay) = failure_step(
                reason,
                l.attempt as int,
                unauthenticated,
                MAX_RECONNECT_ATTEMPTS as int,
            );
            let down = BackendEventV::Disconnected(reason);
            if shutdown && end is Failed {
                (seq![down], None, l)
            } else {
                (
                    match event {
                        Some(e) => seq![down, e],
                        None => seq![down],
                    },
                    match delay {
                        Some(d) => if shutdown {
                            None
                        } else {
                            Some(d as u64)
                        },
                        None => None,
                    },
                    Listener {
                        attempt: (l.attempt + if delay is Some { 1int } else { 0 }) as u32,
                        connection_lost: lost,
                    },
                )
            }
        },
    }
}

/// The listener after the user's wish to connect again, and whether it opens a new
/// stream.
pub open spec fn reconnect_step(l: Listener, shutdown: bool, enabled: bool) -> (Listener, bool) {
    if shutdown || !enabled {
        (l, false)
    } else if l.connection_lost {
        (Listener { attempt: 0, connection_lost: false }, true)
    } else {
        (l, false)
    }
}

impl Listener {
    pub fn new() -> (r: Self)
        ensures
            r.attempt == 0,
            !r.connection_lost,
    {
        Listener { attempt: 0, connection_lost: false }
    }

    /// A stream was started: the attempts are forgotten, and it is reported.
    pub fn started(&mut self) -> (r: Vec<BackendEvent>)
        ensures
            final(self).attempt == 0,
            !final(self).connection_lost,
            seen(r@) == seq![BackendEventV::Connected, BackendEventV::Status(Seq::empty())],
    {
        self.attempt = 0;
        self.connection_lost = false;
        let mut events: Vec<BackendEvent> = Vec::new();
        assert(seen(events@) =~= Seq::<BackendEventV>::empty());
        push_event(&mut events, BackendEvent::Connected);
        let empty: String = String::new();
        assert(empty@ =~= Seq::<char>::empty());
        push_event(&mut events, BackendEvent::Status(empty));
        assert(seen(events@) =~= seq![
            BackendEventV::Connected,
            BackendEventV::Status(Seq::empty()),
        ]);
        events
    }

    /// A stream ended: the failure is reported, and either a new stream is
    /// opened after a wait or the listener stops.
    pub fn ended(&mut self, end: StreamEnd, unauthenticated: bool, shutdown: bool) -> (r:
        ListenerNext)
        requires
            old(self).attempt < u32::MAX,
        ensures
            (seen(r.events@), r.retry_after, *final(self)) == ended_step(
                *old(self),
                end,
                unauthenticated,
                shutdown,
            ),
    {
        let mut events: Vec<BackendEvent> = Vec::new();
        assert(seen(events@) =~= Seq::<BackendEventV>::empty());
        let failed: bool = match &end {
            StreamEnd::Failed(_) => true,
            _ => false,
        };
        let reason: String = match end {
            StreamEnd::NotStarted(s) => joined(
                "Telegram update stream failed to start: ",
                s.as_str(),
            ),
            StreamEnd::Failed(s) => joined("Telegram update stream error: ", s.as_str()),
            StreamEnd::Closed => {
                return ListenerNext { events, retry_after: None };
            },
        };
        push_event(&mut events, BackendEvent::Disconnected(reason.clone()));
        let ghost down = BackendEventV::Disconnected(reason@);
        assert(seen(events@) =~= seq![down]);
        if shutdown && failed {
            return ListenerNext { events, retry_after: None };
        }
        let next: StreamFailure = handle_stream_failure(
            reason.as_str(),
            self.attempt,
            unauthenticated,
            MAX_RECONNECT_ATTEMPTS,
        );
        self.connection_lost = next.connection_lost;
        if let Some(e) = next.event {
            let ghost ev = e@;
            push_event(&mut events, e);
            assert(seen(events@) =~= seq![down, ev]);
        }
        if next.delay.is_some() {
            self.attempt = self.attempt + 1;
        }
        ListenerNext { events, retry_after: if shutdown { None } else { next.delay } }
    }

    /// Whether the user's wish to connect again opens a new stream: only where
    /// the connection was lost and the provider is on. The attempts are then
    /// counted anew.
    pub fn reconnect(&mut self, shutdown: bool, enabled: bool) -> (r: bool)
        ensures
            (*final(self), r) == reconnect_step(*old(self), shutdown, enabled),
    {
        if shutdown || !enabled {
            return false;
        }
        let lost: bool = self.connection_lost;
        self.connection_lost = false;
        if lost {
            self.attempt = 0;
        }
        lost
    }
}

/// Where the listener has not been started yet, what it needs is parked here.
#[derive(Clone, Copy, Debug, PartialEq, Eq, Structural)]
pub struct LazyStart {
    pub enabled: bool,
    pub parked: bool,
}

/// What is parked after a start was asked for, and whether the listener is started.
pub open spec fn started_once(l: LazyStart) -> (LazyStart, bool) {
    (LazyStart { parked: l.parked && !l.enabled, ..l }, l.enabled && l.parked)
}

impl LazyStart {
    /// Nothing was started.
    pub fn new(enabled: bool) -> (r: Self)
        ensures
            r == (LazyStart { enabled, parked: true }),
    {
        LazyStart { enabled, parked: true }
    }

    /// Whether the listener is to be started now: on the first call with the
    /// provider on, and never again.
    pub fn maybe_start(&mut self) -> (r: bool)
        ensures
            (*final(self), r) == started_once(*old(self)),
    {
        if !self.enabled {
            return false;
        }
        let start: bool = self.parked;
        self.parked = false;
        start
    }

    /// Turns the provider on or off. Returns whether the listener is to be
    /// started now.
    pub fn set_enabled(&mut self, enabled: bool) -> (r: bool)
        ensures
            (*final(self), r) == started_once(LazyStart { enabled, ..*old(self) }),
    {
        self.enabled = enabled;
        self.maybe_start()
    }
}

// The chat list.

/// The chats of a list of dialogs, and their numbers: dialogs without a usable
/// number are passed over, and so is a number met before.
pub open spec fn dialog_chats(ds: Seq<TgDialog>) -> (Seq<i64>, Seq<ChatV>)
    decreases ds.len(),
{
    if ds.len() == 0 {
        (Seq::empty(), Seq::empty())
    } else {
        let (met, out) = dialog_chats(ds.drop_last());
        let d = ds.last();
        match d.bare_id {
            Some(id) => if id == 0 || met.contains(id) {
                (met, out)
            } else {
                (
                    met.push(id),
                    out.push(
                        ChatV {
                            fixed: d.pinned,
                            unread: d.unread_count > 0,
                            unread_count: d.unread_count,
                            ..tg_row(
                                id,
                                match d.name {
                                    Some(n) => n@,
                                    None => "Unknown"@,
                                },
                                d.last_message_ts,
                                opt_text(d.status),
                            )
                        },
                    ),
                )
            },
            None => (met, out),
        }
    }
}

fn id_in(v: &Vec<i64>, x: i64) -> (r: bool)
    ensures
        r == v@.contains(x),
{
    let mut i: usize = 0;
    while i < v.len()
        invariant
            i <= v@.len(),
            forall|k: int| 0 <= k < i ==> v@[k] != x,
        decreases v@.len() - i,
    {
        if v[i] == x {
            assert(v@[i as int] == x);
            return true;
        }
        i += 1;
    }
    false
}

/// The chats of a list of dialogs.
pub fn chats_of_dialogs(dialogs: &Vec<TgDialog>) -> (r: Vec<Chat>)
    ensures
        seen(r@) == dialog_chats(dialogs@).1,
{
    let mut met: Vec<i64> = Vec::new();
    let mut out: Vec<Chat> = Vec::new();
    let mut i: usize = 0;
    assert(met@ =~= Seq::<i64>::empty());
    assert(seen(out@) =~= Seq::<ChatV>::empty());
    assert(dialogs@.take(0) =~= Seq::<TgDialog>::empty());
    while i < dialogs.len()
        invariant
            i <= dialogs@.len(),
            (met@, seen(out@)) == dialog_chats(dialogs@.take(i as int)),
        decreases dialogs@.len() - i,
    {
        assert(dialogs@.take(i as int + 1).drop_last() =~= dialogs@.take(i as int));
        let d: &TgDialog = &dialogs[i];
        if let Some(id) = d.bare_id {
            if id != 0 && !id_in(&met, id) {
                let name: String = match &d.name {
                    Some(n) => n.clone(),
                    None => owned("Unknown"),
                };
                let mut c: Chat = row(id, name, d.last_message_ts, d.status.clone());
                c.fixed = d.pinned;
                c.unread = d.unread_count > 0;
                c.unread_count = d.unread_count;
                let ghost before = out@;
                let ghost cv = c@;
                met.push(id);
                out.push(c);
                assert(seen(out@) =~= seen(before).push(cv));
            }
        }
        i += 1;
    }
    assert(dialogs@.take(i as int) =~= dialogs@);
    out
}

/// No number comes twice, nor is it zero, in the chats of a list of dialogs.
pub proof fn dialog_chats_are_distinct(ds: Seq<TgDialog>)
    ensures
        dialog_chats(ds).0.len() == dialog_chats(ds).1.len(),
        dialog_chats(ds).0.no_duplicates(),
        forall|i: int|
            0 <= i < dialog_chats(ds).1.len() ==> (#[trigger] dialog_chats(ds).1[i]).id
                == ChatIdV::Telegram(dialog_chats(ds).0[i]) && dialog_chats(ds).0[i] != 0,
    decreases ds.len(),
{
    if ds.len() > 0 {
        dialog_chats_are_distinct(ds.drop_last());
        let (met, out) = dialog_chats(ds.drop_last());
        let (met2, out2) = dialog_chats(ds);
        if met2 != met {
            assert forall|i: int, j: int|
                0 <= i < met2.len() && 0 <= j < met2.len() && i != j implies met2[i] != met2[j] by {
                if i < met.len() && j < met.len() {
                    assert(met[i] != met[j]);
                } else if i < met.len() {
                    assert(met[i] != met2.last());
                } else {
                    assert(met[j] != met2.last());
                }
            }
            assert forall|i: int| 0 <= i < out2.len() implies (#[trigger] out2[i]).id
                == ChatIdV::Telegram(met2[i]) && met2[i] != 0 by {
                if i < out.len() {
                    assert(out2[i] == out[i]);
                    assert(met2[i] == met[i]);
                }
            }
        }
    }
}

/// The longest wait, in seconds, that fetching the chat list sits out.
pub const MAX_REFRESH_WAIT: u64 = 120;

/// The chat list that was fetched last, and until when the server asked to
/// wait. Times are in milliseconds.
pub struct ChatsCache {
    pub cached: Option<(u64, Vec<Chat>)>,
    pub flood_wait_until: Option<u64>,
}

/// What fetching the chat list does now.
pub enum ChatsStep {
    /// The list fetched a moment ago still holds.
    UseCached(Vec<Chat>),
    /// Wait for this long, in milliseconds, and look again.
    Wait { millis: u64, event: BackendEvent },
    Fetch,
}

/// What fetching the chat list does after the server answered.
pub enum FetchStep {
    Done { chats: Vec<Chat>, event: BackendEvent },
    /// Wait for this many seconds and look again.
    WaitAndRetry { seconds: u64, event: BackendEvent },
    /// Give up; a wait that is too long is reported.
    Fail { error: BackendError, event: Option<BackendEvent> },
}

pub open spec fn at_least_a_second(n: int) -> u64 {
    if n < 1 {
        1
    } else {
        n as u64
    }
}

fn copy_chats(chats: &Vec<Chat>) -> (r: Vec<Chat>)
    ensures
        r@ == chats@,
{
    let mut out: Vec<Chat> = Vec::new();
    let mut i: usize = 0;
    while i < chats.len()
        invariant
            i <= chats@.len(),
            out@ == chats@.take(i as int),
        decreases chats@.len() - i,
    {
        out.push(chats[i].clone());
        i += 1;
        assert(chats@.take(i as int) =~= chats@.take(i as int - 1).push(chats@[i as int - 1]));
    }
    assert(chats@.take(i as int) =~= chats@);
    out
}

impl ChatsCache {
    pub fn new() -> (r: Self)
        ensures
            r.cached is None,
            r.flood_wait_until is None,
    {
        ChatsCache { cached: None, flood_wait_until: None }
    }

    /// The list that was fetched no longer holds.
    pub fn invalidate(&mut self)
        ensures
            final(self).cached is None,
            final(self).flood_wait_until == old(self).flood_wait_until,
    {
        self.cached = None;
    }

    /// What fetching the chat list does at a given time: a list less than five
    /// seconds old is used again, a wait the server asked for is sat out, and
    /// else the list is fetched.
    pub fn next(&mut self, now: u64) -> (r: ChatsStep)
        ensures
            final(self).cached == old(self).cached,
            match old(self).cached {
                Some((at, chats)) if now < at + 5000 => r is UseCached && (r->UseCached_0)@
                    == chats@ && final(self).flood_wait_until == old(self).flood_wait_until,
                _ => match old(self).flood_wait_until {
                    Some(until) if until > now => final(self).flood_wait_until == Some(until)
                        && r is Wait && r->Wait_millis == until - now && (r->Wait_event)@
                        == (BackendEventV::RateLimited {
                        retry_after_secs: at_least_a_second((until - now) / 1000),
                    }),
                    _ => r is Fetch && final(self).flood_wait_until is None,
                },
            },
    {
        if let Some((at, chats)) = &self.cached {
            let age: u64 = if now > *at { now - *at } else { 0 };
            if age < 5000 {
                return ChatsStep::UseCached(copy_chats(chats));
            }
        }
        match self.flood_wait_until {
            Some(until) => {
                if until > now {
                    let millis: u64 = until - now;
                    let secs: u64 = millis / 1000;
                    ChatsStep::Wait {
                        millis,
                        event: BackendEvent::RateLimited {
                            retry_after_secs: if secs < 1 { 1 } else { secs },
                        },
                    }
                } else {
                    self.flood_wait_until = None;
                    ChatsStep::Fetch
                }
            },
            None => ChatsStep::Fetch,
        }
    }

    /// What fetching the chat list does after the server answered at a given
    /// time: a list is kept, a wait of up to two minutes is sat out, a longer
    /// one and any other failure end it.
    pub fn fetched(&mut self, now: u64, result: Result<Vec<Chat>, BackendError>) -> (r: FetchStep)
        requires
            match result {
                Err(BackendError::FloodWait(s)) => now + s * 1000 <= u64::MAX,
                _ => true,
            },
        ensures
            match result {
                Ok(chats) => final(self).cached is Some && final(self).cached.unwrap().0 == now
                    && final(self).cached.unwrap().1@ == chats@ && final(self).flood_wait_until
                    == old(self).flood_wait_until && r is Done && (r->chats)@ == chats@ && (
                r->Done_event)@ == BackendEventV::Status(Seq::empty()),
                Err(BackendError::FloodWait(s)) => {
                    let event = BackendEventV::RateLimited {
                        retry_after_secs: at_least_a_second(s as int),
                    };
                    &&& final(self).cached == old(self).cached
                    &&& final(self).flood_wait_until == Some((now + s * 1000) as u64)
                    &&& if s <= MAX_REFRESH_WAIT {
                        r is WaitAndRetry && r->seconds == s && (r->WaitAndRetry_event)@ == event
                    } else {
                        r is Fail && (r->error)@ == BackendErrorV::FloodWait(s) && opt_view(
                            r->Fail_event,
                        ) == Some(event)
                    }
                },
                Err(e) => *final(self) == *old(self) && r is Fail && (r->error)@ == e@ && r->Fail_event is None,
            },
    {
        match result {
            Ok(chats) => {
                self.cached = Some((now, copy_chats(&chats)));
                let empty: String = String::new();
                assert(empty@ =~= Seq::<char>::empty());
                FetchStep::Done { chats, event: BackendEvent::Status(empty) }
            },
            Err(BackendError::FloodWait(s)) => {
                self.flood_wait_until = Some(now + s * 1000);
                let event = BackendEvent::RateLimited {
                    retry_after_secs: if s < 1 { 1 } else { s },
                };
                if s <= MAX_REFRESH_WAIT {
                    FetchStep::WaitAndRetry { seconds: s, event }
                } else {
                    FetchStep::Fail { error: BackendError::FloodWait(s), event: Some(event) }
                }
            },
            Err(e) => FetchStep::Fail { error: e, event: None },
        }
    }
}

/// What a wait does while it lasts. Times are in milliseconds.
#[derive(Debug)]
pub enum SleepStep {
    Over,
    /// The user gave the wait up; this is what is left of it.
    Cancelled(BackendError),
    Sleep { millis: u64 },
}

/// What a wait of `wait` milliseconds does after `elapsed` of them.
pub fn sleep_with_cancel(wait: u64, elapsed: u64, cancelled: bool) -> (r: SleepStep)
    ensures
        if cancelled {
            r is Cancelled && (r->Cancelled_0)@ == BackendErrorV::FloodWait(
                at_least_a_second(if wait > elapsed { (wait - elapsed) / 1000 } else { 0 }),
            )
        } else if elapsed >= wait {
            r is Over
        } else {
            r is Sleep && r->millis == 250
        },
{
    if cancelled {
        let left: u64 = if wait > elapsed { (wait - elapsed) / 1000 } else { 0 };
        return SleepStep::Cancelled(BackendError::FloodWait(if left < 1 { 1 } else { left }));
    }
    if elapsed >= wait {
        return SleepStep::Over;
    }
    SleepStep::Sleep { millis: 250 }
}

// Requests of the user.

/// The number of a chat, for a request that only makes sense on Telegram.
pub fn telegram_chat(chat: &ChatId) -> (r: Result<i64, BackendError>)
    ensures
        match chat@ {
            ChatIdV::Telegram(id) => r == Ok::<i64, BackendError>(id),
            _ => r is Err && r->Err_0@ == BackendErrorV::Other("not a Telegram chat"@),
        },
{
    match chat {
        ChatId::Telegram(id) => Ok(*id),
        _ => Err(BackendError::Other(owned("not a Telegram chat"))),
    }
}

/// A request on one message.
#[derive(Clone, Copy, Debug, PartialEq, Eq, Structural)]
pub enum MessageRequest {
    Reply,
    Delete,
    Edit,
}

/// The numbers of a chat and a message, for a request on the message.
pub fn telegram_message_target(chat: &ChatId, id: &MessageId, request: MessageRequest) -> (r: Result<
    (i64, i32),
    BackendError,
>)
    ensures
        match chat@ {
            ChatIdV::Telegram(c) => match int_value(id@) {
                Some(n) if i32::MIN <= n <= i32::MAX => r == Ok::<(i64, i32), BackendError>(
                    (c, n as i32),
                ),
                _ => r is Err && r->Err_0@ == BackendErrorV::Other(
                    match request {
                        MessageRequest::Reply => "telegram reply needs a numeric message id"@,
                        MessageRequest::Delete => "telegram delete needs a numeric message id"@,
                        MessageRequest::Edit => "telegram edit needs a numeric message id"@,
                    },
                ),
            },
            _ => r is Err && r->Err_0@ == BackendErrorV::Other("not a Telegram chat"@),
        },
{
    let c: i64 = match telegram_chat(chat) {
        Ok(c) => c,
        Err(e) => {
            return Err(e);
        },
    };
    match id.to_i32() {
        Some(n) => Ok((c, n)),
        None => Err(
            BackendError::Other(
                owned(
                    match request {
                        MessageRequest::Reply => "telegram reply needs a numeric message id",
                        MessageRequest::Delete => "telegram delete needs a numeric message id",
                        MessageRequest::Edit => "telegram edit needs a numeric message id",
                    },
                ),
            ),
        ),
    }
}

/// The numbers of a chat and a message, to fetch the media of the message; none
/// where the server does not know the message.
pub fn telegram_media_target(chat: &ChatId, id: &MessageId) -> (r: Result<
    Option<(i64, i32)>,
    BackendError,
>)
    ensures
        match chat@ {
            ChatIdV::Telegram(c) => r == Ok::<Option<(i64, i32)>, BackendError>(
                match int_value(id@) {
                    Some(n) if i32::MIN <= n <= i32::MAX => Some((c, n as i32)),
                    _ => None,
                },
            ),
            _ => r is Err && r->Err_0@ == BackendErrorV::Other("not a Telegram chat"@),
        },
{
    match telegram_chat(chat) {
        Ok(c) => Ok(
            match id.to_i32() {
                Some(n) => Some((c, n)),
                None => None,
            },
        ),
        Err(e) => Err(e),
    }
}

/// A page of messages from oldest to newest.
pub open spec fn tg_page(msgs: Seq<TgMessage>, chat: ChatIdV, own_chat: Option<ChatIdV>) -> Seq<
    MessageV,
> {
    msgs.map_values(|m: TgMessage| tg_message(m, chat, own_chat, None)).reverse()
}

/// A page of messages from oldest to newest; the server gives the newest first.
pub fn history_page(msgs: &Vec<TgMessage>, chat: &ChatId, own_chat: &Option<ChatId>) -> (r: Vec<
    Message,
>)
    ensures
        seen(r@) == tg_page(msgs@, chat@, opt_view(*own_chat)),
{
    let ghost all = msgs@.map_values(
        |m: TgMessage| tg_message(m, chat@, opt_view(*own_chat), None),
    );
    let ghost rev = all.reverse();
    let mut out: Vec<Message> = Vec::new();
    let mut i: usize = msgs.len();
    assert(seen(out@) =~= rev.take(0));
    while i > 0
        invariant
            i <= msgs@.len(),
            all == msgs@.map_values(
                |m: TgMessage| tg_message(m, chat@, opt_view(*own_chat), None),
            ),
            rev == all.reverse(),
            seen(out@) == rev.take(msgs@.len() - i),
        decreases i,
    {
        i -= 1;
        let ghost before = out@;
        out.push(normalize_telegram_message(&msgs[i], chat, own_chat, None));
        assert(seen(out@) =~= seen(before).push(all[i as int]));
        assert(rev.take(msgs@.len() - i) =~= rev.take(msgs@.len() - i - 1).push(all[i as int]));
    }
    assert(rev.take(msgs@.len() as int) =~= rev);
    out
}

/// The message that a reply quotes, for display.
pub open spec fn tg_quote(target: TgMessage) -> ReplyContextV {
    ReplyContextV {
        id: decimal_int(target.id as int),
        sender: if target.outgoing {
            "You"@
        } else {
            match target.sender_name {
                Some(n) => n@,
                None => "Unknown"@,
            }
        },
        text: target.text@,
        timestamp: target.date,
    }
}

/// The message that a reply quotes, for display.
pub fn quote_of(target: &TgMessage) -> (r: ReplyContext)
    ensures
        r@ == tg_quote(*target),
{
    let sender: String = if target.outgoing {
        owned("You")
    } else {
        match &target.sender_name {
            Some(n) => n.clone(),
            None => owned("Unknown"),
        }
    };
    ReplyContext {
        id: MessageId(format_i64(target.id as i64)),
        sender,
        text: target.text.clone(),
        timestamp: target.date,
    }
}

/// A message that was sent, as a message of its chat.
pub open spec fn tg_sent(sent: TgMessage, chat: ChatIdV, reply_to: Option<Seq<char>>) -> MessageV {
    MessageV { reply_to_id: reply_to, ..tg_message(sent, chat, Some(chat), None) }
}

/// A message that was sent, as a message of its chat: it is the user's, and it
/// quotes what the user chose.
pub fn sent_message(sent: &TgMessage, chat: &ChatId, reply_to: Option<MessageId>) -> (r: Message)
    ensures
        r@ == tg_sent(*sent, chat@, opt_view(reply_to)),
        r@.from_me,
{
    let own: Option<ChatId> = Some(chat.clone());
    let mut m: Message = normalize_telegram_message(sent, chat, &own, None);
    m.reply_to_id = reply_to;
    m
}

// Login.

/// What the server handed out in the last login step.
#[derive(Clone, Copy, Debug, PartialEq, Eq, Structural)]
pub enum TokenKind {
    CodeRequested,
    PasswordRequired,
}

/// What a login step asks of the server.
#[derive(Clone, Copy, Debug, PartialEq, Eq, Structural)]
pub enum LoginRequest {
    RequestCode,
    SignIn,
    CheckPassword,
}

/// What a login step asks of the server, or why it cannot. Each step but the
/// first needs what the step before handed out.
pub open spec fn login_plan_of(step: int, token: Option<TokenKind>) -> Result<
    LoginRequest,
    Seq<char>,
> {
    if step == 0 {
        Ok(LoginRequest::RequestCode)
    } else if step == 1 {
        match token {
            None => Err("no login token – call request_code first"@),
            Some(TokenKind::CodeRequested) => Ok(LoginRequest::SignIn),
            Some(TokenKind::PasswordRequired) => Err("call check_password instead of sign_in"@),
        }
    } else if step == 2 {
        match token {
            None => Err("no password token"@),
            Some(TokenKind::PasswordRequired) => Ok(LoginRequest::CheckPassword),
            Some(TokenKind::CodeRequested) => Err("call sign_in instead of check_password"@),
        }
    } else {
        Err("unknown login step"@)
    }
}

/// What a login step asks of the server.
pub fn login_plan(step: usize, token: Option<TokenKind>) -> (r: Result<LoginRequest, BackendError>)
    ensures
        match login_plan_of(step as int, token) {
            Ok(q) => r == Ok::<LoginRequest, BackendError>(q),
            Err(s) => r is Err && r->Err_0@ == BackendErrorV::Other(s),
        },
{
    if step == 0 {
        Ok(LoginRequest::RequestCode)
    } else if step == 1 {
        match token {
            None => Err(BackendError::Other(owned("no login token – call request_code first"))),
            Some(TokenKind::CodeRequested) => Ok(LoginRequest::SignIn),
            Some(TokenKind::PasswordRequired) => Err(
                BackendError::Other(owned("call check_password instead of sign_in")),
            ),
        }
    } else if step == 2 {
        match token {
            None => Err(BackendError::Other(owned("no password token"))),
            Some(TokenKind::PasswordRequired) => Ok(LoginRequest::CheckPassword),
            Some(TokenKind::CodeRequested) => Err(
                BackendError::Other(owned("call sign_in instead of check_password")),
            ),
        }
    } else {
        Err(BackendError::Other(owned("unknown login step")))
    }
}

/// How the server answered a login step.
#[derive(Debug)]
pub enum SignInOutcome {
    SignedIn,
    PasswordRequired { text: String },
    InvalidCode { text: String },
    SignUpRequired { text: String },
    InvalidPassword { text: String },
    /// Any other failure, in words.
    Other { text: String },
}

/// The failure in words.
pub open spec fn outcome_text(o: SignInOutcome) -> Seq<char> {
    match o {
        SignInOutcome::SignedIn => Seq::empty(),
        SignInOutcome::PasswordRequired { text } => text@,
        SignInOutcome::InvalidCode { text } => text@,
        SignInOutcome::SignUpRequired { text } => text@,
        SignInOutcome::InvalidPassword { text } => text@,
        SignInOutcome::Other { text } => text@,
    }
}

/// The outcome of submitting a code: done, on to the password, or an error.
pub open spec fn sign_in_step(o: SignInOutcome) -> Result<LoginStepState, Seq<char>> {
    match o {
        SignInOutcome::SignedIn => Ok(LoginStepState::Done),
        SignInOutcome::PasswordRequired { .. } => Ok(LoginStepState::NextStep),
        SignInOutcome::InvalidCode { .. } => Err("invalid code"@),
        SignInOutcome::SignUpRequired { .. } => Err(
            "sign-up required – create an account with an official Telegram client first"@,
        ),
        _ => Err("sign-in failed: "@ + outcome_text(o)),
    }
}

/// The outcome of submitting a password: done, or an error.
pub open spec fn password_step(o: SignInOutcome) -> Result<LoginStepState, Seq<char>> {
    match o {
        SignInOutcome::SignedIn => Ok(LoginStepState::Done),
        SignInOutcome::InvalidPassword { .. } => Err("invalid password"@),
        _ => Err("password check failed: "@ + outcome_text(o)),
    }
}

fn text_of_outcome(o: &SignInOutcome) -> (r: String)
    ensures
        r@ == outcome_text(*o),
{
    match o {
        SignInOutcome::SignedIn => {
            let s: String = String::new();
            assert(s@ =~= Seq::<char>::empty());
            s
        },
        SignInOutcome::PasswordRequired { text } => text.clone(),
        SignInOutcome::InvalidCode { text } => text.clone(),
        SignInOutcome::SignUpRequired { text } => text.clone(),
        SignInOutcome::InvalidPassword { text } => text.clone(),
        SignInOutcome::Other { text } => text.clone(),
    }
}

/// The outcome of submitting a code.
pub fn sign_in_result(o: &SignInOutcome) -> (r: Result<LoginStepState, BackendError>)
    ensures
        match sign_in_step(*o) {
            Ok(s) => r == Ok::<LoginStepState, BackendError>(s),
            Err(e) => r is Err && r->Err_0@ == BackendErrorV::Other(e),
        },
{
    match o {
        SignInOutcome::SignedIn => Ok(LoginStepState::Done),
        SignInOutcome::PasswordRequired { .. } => Ok(LoginStepState::NextStep),
        SignInOutcome::InvalidCode { .. } => Err(BackendError::Other(owned("invalid code"))),
        SignInOutcome::SignUpRequired { .. } => Err(
            BackendError::Other(
                owned("sign-up required – create an account with an official Telegram client first"),
            ),
        ),
        _ => Err(
            BackendError::Other(joined("sign-in failed: ", text_of_outcome(o).as_str())),
        ),
    }
}

/// The outcome of submitting a password.
pub fn password_result(o: &SignInOutcome) -> (r: Result<LoginStepState, BackendError>)
    ensures
        match password_step(*o) {
            Ok(s) => r == Ok::<LoginStepState, BackendError>(s),
            Err(e) => r is Err && r->Err_0@ == BackendErrorV::Other(e),
        },
{
    match o {
        SignInOutcome::SignedIn => Ok(LoginStepState::Done),
        SignInOutcome::InvalidPassword { .. } => Err(BackendError::Other(owned("invalid password"))),
        _ => Err(
            BackendError::Other(joined("password check failed: ", text_of_outcome(o).as_str())),
        ),
    }
}

/// What is shown in the empty field of a login step.
pub fn login_placeholder(step: usize) -> (r: &'static str)
    ensures
        r@ == if step == 0 {
            "+1234567890"@
        } else if step == 1 {
            "12345"@
        } else if step == 2 {
            "your 2FA password"@
        } else {
            ""@
        },
{
    if step == 0 {
        "+1234567890"
    } else if step == 1 {
        "12345"
    } else if step == 2 {
        "your 2FA password"
    } else {
        ""
    }
}

}
