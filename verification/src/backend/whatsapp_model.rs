//! Model of the WhatsApp account: what every report of the server does to it.
use vstd::prelude::*;

use crate::backend::{
    media_label, BackendEventV, ChatIdV, ChatV, MediaKindV, Message, MessageAction, MessageMediaV,
    MessageV, ReplyContextV,
};
use crate::backend::whatsapp::{
    RecentChat, UsyncResult, WaContent, WaConversation, WaHistorySync, WaInbound, WaInfo,
    WaPushname, WaWebMessage,
};
use crate::helpers::ago;
use crate::jid::{bare, canonical, jid_of, pn_address, user_base_of};
use crate::order::ordered;
use crate::text::{blank, ends, is_digit};
use crate::tui::chat_model::{chat_ids, first_of, message_ids};

verus! {

/// Model of `WhatsAppState`.
pub ghost struct WaV {
    pub enabled: bool,
    pub chats: Seq<ChatV>,
    pub previews: Map<ChatIdV, Seq<char>>,
    pub history: Map<ChatIdV, Seq<MessageV>>,
    pub stanzas: Map<Seq<char>, (ChatIdV, Seq<char>)>,
    pub pushnames: Map<Seq<char>, Seq<char>>,
    pub usync_names: Map<Seq<char>, Seq<char>>,
    pub usync_verified: Map<Seq<char>, ()>,
    pub usync_attempted: Map<Seq<char>, ()>,
    pub sync_seen_at: Option<i64>,
    pub lid_pn: Map<Seq<char>, Seq<char>>,
    pub presence: Map<Seq<char>, (bool, Option<i64>)>,
    pub own_lid: Option<Seq<char>>,
    pub own_pn: Option<Seq<char>>,
}

pub open spec fn is_lid(jid: (Seq<char>, Seq<char>, Seq<char>)) -> bool {
    jid.1 == "lid"@
}

pub open spec fn is_pn(jid: (Seq<char>, Seq<char>, Seq<char>)) -> bool {
    jid.1 == "s.whatsapp.net"@
}

pub open spec fn is_group(jid: (Seq<char>, Seq<char>, Seq<char>)) -> bool {
    jid.1 == "g.us"@
}

/// A text that says something.
pub open spec fn non_blank(s: Option<Seq<char>>) -> Option<Seq<char>> {
    match s {
        Some(t) => if blank(t) {
            None
        } else {
            Some(t)
        },
        None => None,
    }
}

/// What a map holds for a key, where it says something.
pub open spec fn named_in(m: Map<Seq<char>, Seq<char>>, key: Seq<char>) -> Option<Seq<char>> {
    if m.dom().contains(key) && !blank(m[key]) {
        Some(m[key])
    } else {
        None
    }
}

/// What can be done with a message of the account.
pub open spec fn wa_actions(from_me: bool) -> Seq<MessageAction> {
    if from_me {
        seq![MessageAction::Reply, MessageAction::Edit, MessageAction::Delete]
    } else {
        seq![MessageAction::Reply]
    }
}

/// The chat of a message: the user's own messages to themselves belong under
/// their phone number, also where they come under their opaque identity.
pub open spec fn own_chat(
    own_lid: Option<Seq<char>>,
    own_pn: Option<Seq<char>>,
    chat: ChatIdV,
    from_me: bool,
) -> ChatIdV {
    match chat {
        ChatIdV::WhatsApp(raw) => if from_me && own_lid == Some(raw) && own_pn is Some {
            ChatIdV::WhatsApp(own_pn.unwrap())
        } else {
            chat
        },
        _ => chat,
    }
}

/// Whether a chat is the user's chat with themselves.
pub open spec fn is_self(
    chat: ChatIdV,
    own_lid: Option<Seq<char>>,
    own_pn: Option<Seq<char>>,
) -> bool {
    match chat {
        ChatIdV::WhatsApp(raw) => own_lid == Some(raw) || own_pn == Some(raw),
        _ => false,
    }
}

/// The chat under an address: an opaque identity whose phone number is known
/// stands for the chat of that number, where there is one.
pub open spec fn folded_key(key: Seq<char>, st: WaV) -> ChatIdV {
    match jid_of(key) {
        Some(jid) => {
            let base = user_base_of(jid.0);
            if is_lid(jid) && st.lid_pn.dom().contains(base) && chat_ids(st.chats).contains(
                ChatIdV::WhatsApp(pn_address(st.lid_pn[base])),
            ) {
                ChatIdV::WhatsApp(pn_address(st.lid_pn[base]))
            } else {
                ChatIdV::WhatsApp(key)
            }
        },
        None => ChatIdV::WhatsApp(key),
    }
}

/// The account after the phone number of an opaque identity was looked up.
/// `found` is what the lookup knows.
pub open spec fn learned(
    st: WaV,
    jid: (Seq<char>, Seq<char>, Seq<char>),
    found: Map<Seq<char>, Seq<char>>,
) -> WaV {
    let base = user_base_of(jid.0);
    if is_lid(jid) && !st.lid_pn.dom().contains(base) && found.dom().contains(base) {
        WaV { lid_pn: st.lid_pn.insert(base, found[base]), ..st }
    } else {
        st
    }
}

/// The chat that a chat id stands for, and the account after its phone number
/// was looked up.
pub open spec fn canonical_id(
    st: WaV,
    chat: ChatIdV,
    found: Map<Seq<char>, Seq<char>>,
) -> (WaV, ChatIdV) {
    match chat {
        ChatIdV::WhatsApp(raw) => match jid_of(raw) {
            Some(jid) => if is_lid(jid) {
                let st1 = learned(st, jid, found);
                if st1.lid_pn.dom().contains(user_base_of(jid.0)) {
                    (st1, folded_key(raw, st1))
                } else {
                    (st, chat)
                }
            } else {
                (st, chat)
            },
            None => (st, chat),
        },
        _ => (st, chat),
    }
}

/// The media of a message.
pub open spec fn wa_media(c: WaContent) -> Option<MessageMediaV> {
    let kind = if c.image {
        Some(MediaKindV::Image)
    } else if c.video {
        Some(MediaKindV::Video)
    } else if c.audio {
        Some(MediaKindV::Audio { duration_secs: None, is_voice: false, waveform: None })
    } else if c.sticker {
        Some(MediaKindV::Sticker)
    } else if c.document {
        Some(MediaKindV::Document)
    } else {
        None
    };
    match kind {
        Some(k) => Some(
            MessageMediaV {
                kind: k,
                caption: crate::backend::opt_text(c.caption),
                file_name: crate::backend::opt_text(c.file_name),
            },
        ),
        None => None,
    }
}

/// The message that a message quotes: the first of its parts that quotes one
/// says which.
pub open spec fn wa_quoted(c: WaContent) -> Option<Seq<char>> {
    let quote = if c.text_quote is Some {
        c.text_quote
    } else if c.image_quote is Some {
        c.image_quote
    } else if c.video_quote is Some {
        c.video_quote
    } else {
        c.document_quote
    };
    match quote {
        Some(q) => crate::backend::opt_text(q.stanza_id),
        None => None,
    }
}

/// The decimal digits of a text.
pub open spec fn only_digits(s: Seq<char>) -> Seq<char>
    decreases s.len(),
{
    if s.len() == 0 {
        s
    } else if is_digit(s.last()) {
        only_digits(s.drop_last()).push(s.last())
    } else {
        only_digits(s.drop_last())
    }
}

/// A phone number as it is shown: country, area, prefix and the last four.
pub open spec fn pretty_number(pn: Seq<char>) -> Seq<char> {
    let d = only_digits(pn);
    if d.len() < 8 {
        "+"@ + d
    } else {
        "+"@ + d.take(2) + " "@ + d.subrange(2, 4) + " "@ + d.subrange(4, d.len() - 4) + "-"@
            + d.skip(d.len() - 4)
    }
}

/// The name of a phone number: its push name, else the number.
pub open spec fn number_name(pn: Seq<char>, pushnames: Map<Seq<char>, Seq<char>>) -> Seq<char> {
    match named_in(pushnames, pn_address(pn)) {
        Some(n) => n,
        None => pretty_number(pn),
    }
}

/// The name of an author: the message's own push name, else the one known for
/// the address, else that of the phone number behind an opaque identity, else
/// the bare address.
pub open spec fn author_name(
    push_name: Seq<char>,
    jid: (Seq<char>, Seq<char>, Seq<char>),
    pushnames: Map<Seq<char>, Seq<char>>,
    lid_pn: Map<Seq<char>, Seq<char>>,
) -> Seq<char> {
    let base = user_base_of(jid.0);
    if !blank(push_name) {
        push_name
    } else {
        match named_in(pushnames, bare(jid.0, jid.1)) {
            Some(n) => n,
            None => if is_lid(jid) && lid_pn.dom().contains(base) {
                number_name(lid_pn[base], pushnames)
            } else if base.len() > 0 {
                base
            } else {
                "Unknown"@
            },
        }
    }
}

/// The name of a conversation, and whether its peer is a verified business.
pub open spec fn conversation_name(
    c: WaConversation,
    pushnames: Map<Seq<char>, Seq<char>>,
    usync_names: Map<Seq<char>, Seq<char>>,
    usync_verified: Map<Seq<char>, ()>,
) -> (Seq<char>, bool) {
    let name = non_blank(crate::backend::opt_text(c.name));
    let shown = non_blank(crate::backend::opt_text(c.display_name));
    let pn_key = match non_blank(crate::backend::opt_text(c.pn_jid)) {
        Some(k) => k,
        None => c.id@,
    };
    let group = match jid_of(c.id@) {
        Some(jid) => is_group(jid),
        None => false,
    };
    if group {
        (
            match name {
                Some(n) => n,
                None => c.id@,
            },
            false,
        )
    } else if name is Some {
        (name.unwrap(), false)
    } else if shown is Some {
        (shown.unwrap(), false)
    } else if named_in(pushnames, pn_key) is Some {
        (named_in(pushnames, pn_key).unwrap(), false)
    } else if named_in(usync_names, pn_key) is Some {
        (named_in(usync_names, pn_key).unwrap(), usync_verified.dom().contains(pn_key))
    } else if jid_of(pn_key) is Some && is_pn(jid_of(pn_key).unwrap()) {
        (pretty_number(user_base_of(jid_of(pn_key).unwrap().0)), false)
    } else if jid_of(c.id@) is Some && user_base_of(jid_of(c.id@).unwrap().0).len() > 0 {
        (user_base_of(jid_of(c.id@).unwrap().0), false)
    } else {
        (c.id@, false)
    }
}

/// A line that sums up a message.
pub open spec fn preview_of(sender: Seq<char>, text: Seq<char>, from_me: bool) -> Seq<char> {
    if from_me {
        "You: "@ + text
    } else {
        sender + ": "@ + text
    }
}

/// Why a conversation is no chat: none where it is one.
pub open spec fn skip_reason(c: WaConversation) -> Option<Seq<char>> {
    if c.is_parent_group == Some(true) {
        Some("parent community group (no direct chat)"@)
    } else if c.is_marketing_message_thread == Some(true) {
        Some("marketing message thread"@)
    } else if c.pnh_duplicate_lid_thread == Some(true) {
        Some("pnh duplicate lid thread"@)
    } else if c.suspended == Some(true) {
        Some("suspended conversation"@)
    } else if c.terminated == Some(true) {
        Some("terminated conversation"@)
    } else if c.read_only == Some(true) {
        Some("read-only (left/declined) conversation"@)
    } else if ends(c.id@, "@lid"@) && c.pn_jid is None && c.conversation_timestamp is None
        && c.unread_count is None {
        Some("lid chat never started (ghost row)"@)
    } else {
        None
    }
}

/// The messages of a chat.
pub open spec fn history_of(st: WaV, chat: ChatIdV) -> Seq<MessageV> {
    if st.history.dom().contains(chat) {
        st.history[chat]
    } else {
        Seq::empty()
    }
}

/// The account with one message more in a chat.
pub open spec fn with_message(st: WaV, chat: ChatIdV, m: MessageV) -> WaV {
    WaV { history: st.history.insert(chat, history_of(st, chat).push(m)), ..st }
}

/// What the message with an id quotes, where both are known.
pub open spec fn quoted_by(h: Seq<MessageV>, id: Seq<char>) -> Option<ReplyContextV> {
    match first_of(message_ids(h), id) {
        Some(i) => match h[i].reply_to_id {
            Some(q) => quote_in(h, q),
            None => None,
        },
        None => None,
    }
}

/// The quote of a message, by id.
pub open spec fn quote_in(msgs: Seq<MessageV>, id: Seq<char>) -> Option<ReplyContextV> {
    match first_of(message_ids(msgs), id) {
        Some(i) => Some(
            ReplyContextV {
                id: msgs[i].message_id,
                sender: msgs[i].sender,
                text: msgs[i].text,
                timestamp: msgs[i].timestamp,
            },
        ),
        None => None,
    }
}

/// The quote of a known message, by its stanza.
pub open spec fn known_quote(st: WaV, id: Seq<char>) -> Option<ReplyContextV> {
    if st.stanzas.dom().contains(id) && st.history.dom().contains(st.stanzas[id].0) {
        quote_in(st.history[st.stanzas[id].0], id)
    } else {
        None
    }
}

/// A message of the server as a message of a chat.
pub open spec fn wa_message(chat: ChatIdV, info: WaInfo, c: WaContent, st: WaV) -> MessageV {
    let media = wa_media(c);
    let quoted = wa_quoted(c);
    MessageV {
        message_id: info.id@,
        chat,
        sender: if info.from_me {
            "You"@
        } else {
            author_name(info.push_name@, info.sender.parts(), st.pushnames, st.lid_pn)
        },
        author_id: Some(info.sender.full@),
        text: match media {
            Some(m) => match non_blank(m.caption) {
                Some(t) => t,
                None => media_label(m.kind) + ", click to show"@,
            },
            None => match c.text {
                Some(t) => t@,
                None => ""@,
            },
        },
        timestamp: info.timestamp,
        from_me: info.from_me,
        msg_actions: wa_actions(info.from_me),
        media,
        reply_to_id: quoted,
        reply_ctx: match quoted {
            Some(id) => known_quote(st, id),
            None => None,
        },
        pending: false,
        failed: false,
    }
}

/// One more, within the range of the counter.
pub open spec fn one_more(n: i32) -> i32 {
    if n < i32::MAX {
        (n + 1) as i32
    } else {
        n
    }
}

/// A chat of which only these things are known.
pub open spec fn fresh_chat(
    id: ChatIdV,
    name: Seq<char>,
    unread: bool,
    unread_count: i32,
    fixed: bool,
    verified: bool,
) -> ChatV {
    ChatV {
        id,
        contact_name: name,
        last_message_ts: None,
        status: None,
        fixed,
        scroll: 0,
        unread,
        unread_count,
        verified,
    }
}

/// The name of a chat that a message opens.
pub open spec fn name_from_message(st: WaV, chat: ChatIdV, m: MessageV) -> Seq<char> {
    let sender = if m.from_me {
        if is_self(chat, st.own_lid, st.own_pn) {
            "Myself"@
        } else {
            "You"@
        }
    } else {
        m.sender
    };
    if sender.len() == 0 || sender == "Unknown"@ {
        match chat {
            ChatIdV::WhatsApp(raw) => match jid_of(raw) {
                Some(jid) => user_base_of(jid.0),
                None => raw,
            },
            _ => "Unknown"@,
        }
    } else {
        sender
    }
}

/// The account after a message reached the chat list.
pub open spec fn listed_message(st: WaV, chat: ChatIdV, m: MessageV) -> WaV {
    let st1 = WaV {
        previews: st.previews.insert(chat, preview_of(m.sender, m.text, m.from_me)),
        ..st
    };
    match first_of(chat_ids(st.chats), chat) {
        Some(i) => {
            let row = st.chats[i];
            let own = is_self(chat, st.own_lid, st.own_pn);
            WaV {
                chats: st.chats.update(
                    i,
                    ChatV {
                        contact_name: if own { "Myself"@ } else { row.contact_name },
                        verified: row.verified && !own,
                        unread: row.unread || !m.from_me,
                        unread_count: if m.from_me { row.unread_count } else {
                            one_more(row.unread_count)
                        },
                        ..row
                    },
                ),
                ..st1
            }
        },
        None => WaV {
            chats: st.chats.push(
                fresh_chat(
                    chat,
                    name_from_message(st, chat, m),
                    !m.from_me,
                    if m.from_me { 0 } else { 1 },
                    false,
                    false,
                ),
            ),
            ..st1
        },
    }
}

/// A count of the server as a counter of the list, which wraps around.
pub open spec fn as_counter(n: Option<u32>) -> i32 {
    match n {
        Some(v) => if v < 0x8000_0000 {
            v as i32
        } else {
            (v - 0x1_0000_0000) as i32
        },
        None => 0,
    }
}

pub open spec fn larger(a: i32, b: i32) -> i32 {
    if a > b {
        a
    } else {
        b
    }
}

/// The account after a conversation reached the chat list. A name that is only
/// the address does not replace a known one.
pub open spec fn listed_conversation(st: WaV, c: WaConversation, chat: ChatIdV) -> WaV {
    if skip_reason(c) is Some {
        st
    } else {
        let (name, verified) = if is_self(chat, st.own_lid, st.own_pn) {
            ("Myself"@, false)
        } else {
            conversation_name(c, st.pushnames, st.usync_names, st.usync_verified)
        };
        let unread = as_counter(c.unread_count);
        let fixed = c.pinned is Some && c.pinned.unwrap() > 0;
        match first_of(chat_ids(st.chats), chat) {
            Some(i) => {
                let row = st.chats[i];
                let keep = name == c.id@;
                WaV {
                    chats: st.chats.update(
                        i,
                        ChatV {
                            contact_name: if keep { row.contact_name } else { name },
                            verified: if keep { row.verified } else { verified },
                            unread_count: larger(
                                larger(unread, row.unread_count),
                                if row.unread { 1 } else { 0 },
                            ),
                            unread: unread > 0 || row.unread,
                            fixed,
                            ..row
                        },
                    ),
                    ..st
                }
            },
            None => WaV {
                chats: st.chats.push(
                    fresh_chat(chat, name, unread > 0, unread, fixed, verified),
                ),
                previews: st.previews.remove(chat),
                ..st
            },
        }
    }
}

/// The newest message of a chat; of several, the last.
pub open spec fn newest(msgs: Seq<MessageV>) -> Option<MessageV>
    decreases msgs.len(),
{
    if msgs.len() == 0 {
        None
    } else {
        match newest(msgs.drop_last()) {
            Some(m) => if msgs.last().timestamp >= m.timestamp {
                Some(msgs.last())
            } else {
                Some(m)
            },
            None => Some(msgs.last()),
        }
    }
}

/// The account with the line that sums up a chat worked out anew.
pub open spec fn previewed(st: WaV, chat: ChatIdV) -> WaV {
    if chat_ids(st.chats).contains(chat) {
        WaV {
            previews: match newest(history_of(st, chat)) {
                Some(m) => st.previews.insert(chat, preview_of(m.sender, m.text, m.from_me)),
                None => st.previews.remove(chat),
            },
            ..st
        }
    } else {
        st
    }
}

/// The account after it learned who it is: its own chats are named so.
pub open spec fn self_named(st: WaV) -> WaV {
    WaV {
        chats: st.chats.map_values(
            |c: ChatV|
                if is_self(c.id, st.own_lid, st.own_pn) {
                    ChatV { contact_name: "Myself"@, verified: false, ..c }
                } else {
                    c
                },
        ),
        ..st
    }
}

/// The account with one message of the server taken in, and the message to
/// report. Broadcasts and messages without content are passed over.
pub open spec fn ingested(st: WaV, inb: WaInbound, found: Map<Seq<char>, Seq<char>>) -> (
    WaV,
    Option<MessageV>,
) {
    if inb.broadcast {
        (st, None)
    } else {
        let from_me = inb.info.from_me;
        let chat0 = own_chat(
            st.own_lid,
            st.own_pn,
            ChatIdV::WhatsApp(canonical(inb.chat@)),
            from_me,
        );
        let (st1, chat) = canonical_id(st, chat0, found);
        let st2 = if from_me { st1 } else { learned(st1, inb.info.sender.parts(), found) };
        let m = wa_message(chat, inb.info, inb.content, st2);
        if m.text.len() == 0 && m.media is None {
            (st2, None)
        } else {
            let st3 = WaV { stanzas: st2.stanzas.insert(m.message_id, (chat, m.message_id)), ..st2 };
            let st4 = if message_ids(history_of(st3, chat)).contains(m.message_id) {
                st3
            } else {
                with_message(st3, chat, m)
            };
            (listed_message(st4, chat, m), Some(m))
        }
    }
}

/// The account with a batch of messages taken in, and the messages to report.
pub open spec fn ingested_all(
    st: WaV,
    batch: Seq<WaInbound>,
    found: Map<Seq<char>, Seq<char>>,
) -> (WaV, Seq<MessageV>)
    decreases batch.len(),
{
    if batch.len() == 0 {
        (st, Seq::empty())
    } else {
        let (st1, out) = ingested_all(st, batch.drop_last(), found);
        let (st2, m) = ingested(st1, batch.last(), found);
        match m {
            Some(x) => (st2, out.push(x)),
            None => (st2, out),
        }
    }
}

/// The account without a chat, its messages, and what refers to them.
pub open spec fn without_stanzas(
    m: Map<Seq<char>, (ChatIdV, Seq<char>)>,
    chat: ChatIdV,
) -> Map<Seq<char>, (ChatIdV, Seq<char>)> {
    Map::new(|k: Seq<char>| m.dom().contains(k) && m[k].0 != chat, |k: Seq<char>| m[k])
}

pub open spec fn without_chat(st: WaV, chat: ChatIdV) -> WaV {
    WaV {
        chats: match first_of(chat_ids(st.chats), chat) {
            Some(i) => st.chats.remove(i),
            None => st.chats,
        },
        previews: if chat_ids(st.chats).contains(chat) { st.previews.remove(chat) } else {
            st.previews
        },
        history: st.history.remove(chat),
        stanzas: without_stanzas(st.stanzas, chat),
        ..st
    }
}

/// A chat with how recent its newest message is.
pub open spec fn with_recency(st: WaV) -> Seq<(ChatV, i64)> {
    st.chats.map_values(
        |c: ChatV|
            (
                c,
                match newest(history_of(st, c.id)) {
                    Some(m) => m.timestamp,
                    None => 0i64,
                },
            ),
    )
}

/// The chat list in the order in which it is shown.
pub open spec fn snapshot(st: WaV) -> Seq<ChatV> {
    ordered::<RecentChat>(with_recency(st)).map_values(|p: (ChatV, i64)| p.0)
}

/// The keys under which the presence of a peer is kept.
pub open spec fn presence_keys_of(
    jid: (Seq<char>, Seq<char>, Seq<char>),
    lid_pn: Map<Seq<char>, Seq<char>>,
) -> Seq<Seq<char>> {
    let base = user_base_of(jid.0);
    if is_lid(jid) && lid_pn.dom().contains(base) {
        seq![bare(jid.0, jid.1), pn_address(lid_pn[base])]
    } else {
        seq![bare(jid.0, jid.1)]
    }
}

/// The presence of a peer in words.
pub open spec fn presence_text(online: bool, last_seen: Option<i64>, now: int) -> Option<Seq<char>> {
    if online {
        Some("online"@)
    } else {
        match last_seen {
            Some(ts) => Some("last seen "@ + ago(now, ts as int)),
            None => None,
        }
    }
}

/// The chat of a peer, where there is one.
pub open spec fn peer_chat(st: WaV, jid: (Seq<char>, Seq<char>, Seq<char>)) -> Option<ChatIdV> {
    let chat = folded_key(bare(jid.0, jid.1), st);
    if chat_ids(st.chats).contains(chat) {
        Some(chat)
    } else {
        None
    }
}

// History sync.

/// The author of a message of a conversation: the participant, else the
/// conversation itself.
pub open spec fn web_author(conv_id: Seq<char>, participant: Option<String>) -> (
    Seq<char>,
    Seq<char>,
    Seq<char>,
) {
    let own = match jid_of(conv_id) {
        Some(jid) => jid,
        None => (conv_id, "s.whatsapp.net"@, pn_address(conv_id)),
    };
    match participant {
        Some(p) => match jid_of(p@) {
            Some(jid) => jid,
            None => own,
        },
        None => own,
    }
}

/// A time of the server, which wraps around.
pub open spec fn as_time(t: Option<u64>, now: i64) -> i64 {
    match t {
        Some(v) => if v < 0x8000_0000_0000_0000 {
            v as i64
        } else {
            (v - 0x1_0000_0000_0000_0000) as i64
        },
        None => now,
    }
}

/// The stanza of a message of a conversation, where the message is complete.
pub open spec fn web_stanza(w: Option<WaWebMessage>) -> Option<Seq<char>> {
    match w {
        Some(web) => match web.key {
            Some(key) => if web.message is Some {
                crate::backend::opt_text(key.id)
            } else {
                None
            },
            None => None,
        },
        None => None,
    }
}

/// A message of a conversation as a message of a chat.
pub open spec fn web_message(
    st: WaV,
    conv_id: Seq<char>,
    chat: ChatIdV,
    web: WaWebMessage,
    now: i64,
) -> MessageV {
    let key = web.key.unwrap();
    let author = web_author(conv_id, key.participant);
    let from_me = key.from_me == Some(true);
    let push = match web.push_name {
        Some(p) => p@,
        None => ""@,
    };
    let c = web.message.unwrap();
    let media = wa_media(c);
    let quoted = wa_quoted(c);
    let name = author_name(push, author, st.pushnames, st.lid_pn);
    MessageV {
        message_id: key.id.unwrap()@,
        chat,
        sender: if from_me {
            "You"@
        } else {
            author_name(name, author, st.pushnames, st.lid_pn)
        },
        author_id: Some(author.2),
        text: match media {
            Some(m) => match non_blank(m.caption) {
                Some(t) => t,
                None => media_label(m.kind) + ", click to show"@,
            },
            None => match c.text {
                Some(t) => t@,
                None => ""@,
            },
        },
        timestamp: as_time(web.timestamp, now),
        from_me,
        msg_actions: wa_actions(from_me),
        media,
        reply_to_id: quoted,
        reply_ctx: match quoted {
            Some(id) => known_quote(st, id),
            None => None,
        },
        pending: false,
        failed: false,
    }
}

/// The new messages of a conversation in the order of the report, and the
/// stanzas met: complete messages, each stanza once, not known before, with
/// content.
pub open spec fn new_messages(
    st: WaV,
    conv_id: Seq<char>,
    chat: ChatIdV,
    msgs: Seq<Option<WaWebMessage>>,
    now: i64,
) -> (Seq<Seq<char>>, Seq<MessageV>)
    decreases msgs.len(),
{
    if msgs.len() == 0 {
        (Seq::empty(), Seq::empty())
    } else {
        let (met, out) = new_messages(st, conv_id, chat, msgs.drop_last(), now);
        match web_stanza(msgs.last()) {
            None => (met, out),
            Some(stanza) => if met.contains(stanza) {
                (met, out)
            } else if message_ids(history_of(st, chat)).contains(stanza) {
                (met.push(stanza), out)
            } else {
                let m = web_message(st, conv_id, chat, msgs.last().unwrap(), now);
                if m.text.len() == 0 && m.media is None {
                    (met.push(stanza), out)
                } else {
                    (met.push(stanza), out.push(m))
                }
            },
        }
    }
}

/// The account with messages added to a chat, those that are not known yet.
pub open spec fn with_messages(st: WaV, chat: ChatIdV, msgs: Seq<MessageV>) -> WaV
    decreases msgs.len(),
{
    if msgs.len() == 0 {
        st
    } else {
        let st1 = with_messages(st, chat, msgs.drop_last());
        let m = msgs.last();
        if message_ids(history_of(st1, chat)).contains(m.message_id) {
            st1
        } else {
            with_message(
                WaV { stanzas: st1.stanzas.insert(m.message_id, (chat, m.message_id)), ..st1 },
                chat,
                m,
            )
        }
    }
}

/// The account with one conversation of a history sync taken in: the row, then
/// the new messages from oldest to newest, then the summary.
pub open spec fn synced_conversation(st: WaV, c: WaConversation, chat: ChatIdV, now: i64) -> WaV {
    let st1 = listed_conversation(st, c, chat);
    let fresh = new_messages(st1, c.id@, chat, c.messages@, now).1;
    previewed(with_messages(st1, chat, ordered::<Message>(fresh)), chat)
}

/// The account with the conversations of a history sync taken in.
pub open spec fn synced_conversations(
    st: WaV,
    convs: Seq<WaConversation>,
    chats: Seq<ChatIdV>,
    now: i64,
) -> WaV
    decreases convs.len(),
{
    if convs.len() == 0 || chats.len() == 0 {
        st
    } else {
        synced_conversation(
            synced_conversations(st, convs.drop_last(), chats.drop_last(), now),
            convs.last(),
            chats.last(),
            now,
        )
    }
}

/// The account after the chats of the conversations were looked up, and those
/// chats.
pub open spec fn canonical_ids(
    st: WaV,
    convs: Seq<WaConversation>,
    found: Map<Seq<char>, Seq<char>>,
) -> (WaV, Seq<ChatIdV>)
    decreases convs.len(),
{
    if convs.len() == 0 {
        (st, Seq::empty())
    } else {
        let (st1, ids) = canonical_ids(st, convs.drop_last(), found);
        let (st2, id) = canonical_id(
            st1,
            ChatIdV::WhatsApp(canonical(convs.last().id@)),
            found,
        );
        (st2, ids.push(id))
    }
}

/// The push names with those of a report: blank ones are passed over.
pub open spec fn with_pushnames(
    m: Map<Seq<char>, Seq<char>>,
    list: Seq<WaPushname>,
) -> Map<Seq<char>, Seq<char>>
    decreases list.len(),
{
    if list.len() == 0 {
        m
    } else {
        let rest = with_pushnames(m, list.drop_last());
        match (list.last().id, list.last().pushname) {
            (Some(id), Some(name)) => if blank(name@) {
                rest
            } else {
                rest.insert(id@, name@)
            },
            _ => rest,
        }
    }
}

/// Whether every character is ASCII.
pub open spec fn all_ascii(s: Seq<char>) -> bool {
    forall|i: int| 0 <= i < s.len() ==> (#[trigger] s[i] as u32) < 0x80
}

/// The account after the author of a message was looked up: only those who
/// carry no name themselves.
pub open spec fn author_learned(
    st: WaV,
    conv_id: Seq<char>,
    w: Option<WaWebMessage>,
    found: Map<Seq<char>, Seq<char>>,
) -> WaV {
    match w {
        Some(web) => match web.key {
            Some(key) => {
                let author = web_author(conv_id, key.participant);
                if key.from_me == Some(true) || non_blank(
                    crate::backend::opt_text(web.push_name),
                ) is Some || !all_ascii(user_base_of(author.0)) {
                    st
                } else {
                    learned(st, author, found)
                }
            },
            None => st,
        },
        None => st,
    }
}

pub open spec fn authors_learned(
    st: WaV,
    conv_id: Seq<char>,
    msgs: Seq<Option<WaWebMessage>>,
    found: Map<Seq<char>, Seq<char>>,
) -> WaV
    decreases msgs.len(),
{
    if msgs.len() == 0 {
        st
    } else {
        author_learned(
            authors_learned(st, conv_id, msgs.drop_last(), found),
            conv_id,
            msgs.last(),
            found,
        )
    }
}

pub open spec fn all_authors_learned(
    st: WaV,
    convs: Seq<WaConversation>,
    found: Map<Seq<char>, Seq<char>>,
) -> WaV
    decreases convs.len(),
{
    if convs.len() == 0 {
        st
    } else {
        authors_learned(
            all_authors_learned(st, convs.drop_last(), found),
            convs.last().id@,
            convs.last().messages@,
            found,
        )
    }
}

/// The identity of the account: its opaque address and its phone address.
pub open spec fn with_identity(st: WaV, lid: Option<Seq<char>>, pn: Option<Seq<char>>) -> WaV {
    self_named(WaV { own_lid: lid, own_pn: pn, ..st })
}

/// The account with a history sync taken in, before duplicates are folded.
/// `own` is the account's identity where the connection is there to ask.
pub open spec fn history_synced(
    st: WaV,
    hs: WaHistorySync,
    found: Map<Seq<char>, Seq<char>>,
    own: Option<(Option<Seq<char>>, Option<Seq<char>>)>,
    now: i64,
) -> WaV {
    let (st1, ids) = canonical_ids(st, hs.conversations@, found);
    let st2 = all_authors_learned(st1, hs.conversations@, found);
    let st3 = match own {
        Some((lid, pn)) => with_identity(st2, lid, pn),
        None => st2,
    };
    let st4 = WaV {
        sync_seen_at: match st3.sync_seen_at {
            Some(t) => Some(t),
            None => Some(now),
        },
        pushnames: with_pushnames(st3.pushnames, hs.pushnames@),
        ..st3
    };
    synced_conversations(st4, hs.conversations@, ids, now)
}

// One row per peer.

/// The opaque identities among the chats.
pub open spec fn lids_of(chats: Seq<ChatV>) -> Seq<Seq<char>>
    decreases chats.len(),
{
    if chats.len() == 0 {
        Seq::empty()
    } else {
        let rest = lids_of(chats.drop_last());
        match chats.last().id {
            ChatIdV::WhatsApp(raw) => match jid_of(raw) {
                Some(jid) => if is_lid(jid) {
                    rest.push(user_base_of(jid.0))
                } else {
                    rest
                },
                None => rest,
            },
            _ => rest,
        }
    }
}

/// Messages with others added, those whose id is not there yet.
pub open spec fn joined_messages(a: Seq<MessageV>, b: Seq<MessageV>) -> Seq<MessageV>
    decreases b.len(),
{
    if b.len() == 0 {
        a
    } else {
        let rest = joined_messages(a, b.drop_last());
        if message_ids(rest).contains(b.last().message_id) {
            rest
        } else {
            rest.push(b.last())
        }
    }
}

/// A row that takes over what the row of the same peer had.
pub open spec fn absorbed(row: ChatV, orphan: ChatV) -> ChatV {
    ChatV {
        unread: row.unread || orphan.unread,
        unread_count: larger(row.unread_count, orphan.unread_count),
        verified: row.verified || orphan.verified,
        ..row
    }
}

/// The account with the row of one opaque identity folded into that of its
/// phone number, the row that went, and the chat that took it over.
pub open spec fn lid_folded(st: WaV, base: Seq<char>, found: Map<Seq<char>, Seq<char>>) -> (
    WaV,
    Option<(ChatV, ChatIdV)>,
) {
    match jid_of(base + "@lid"@) {
        None => (st, None),
        Some(jid) => if !found.dom().contains(base) {
            (st, None)
        } else {
            let st1 = WaV { lid_pn: st.lid_pn.insert(base, found[base]), ..st };
            let lid_chat = ChatIdV::WhatsApp(bare(jid.0, jid.1));
            let pn_chat = ChatIdV::WhatsApp(pn_address(found[base]));
            match first_of(chat_ids(st1.chats), lid_chat) {
                Some(i) => if chat_ids(st1.chats).contains(pn_chat) {
                    let orphan = st1.chats[i];
                    let rest = st1.chats.remove(i);
                    let chats = match first_of(chat_ids(rest), pn_chat) {
                        Some(k) => rest.update(k, absorbed(rest[k], orphan)),
                        None => rest,
                    };
                    let had = st1.previews.dom().contains(lid_chat);
                    let moved = if had && !st1.previews.dom().contains(pn_chat) {
                        st1.previews.insert(pn_chat, st1.previews[lid_chat])
                    } else {
                        st1.previews
                    };
                    let left = st1.history.remove(lid_chat);
                    let own = if left.dom().contains(pn_chat) {
                        left[pn_chat]
                    } else {
                        Seq::empty()
                    };
                    (
                        WaV {
                            chats,
                            previews: if lid_chat == pn_chat { moved } else {
                                moved.remove(lid_chat)
                            },
                            history: if st1.history.dom().contains(lid_chat) {
                                left.insert(
                                    pn_chat,
                                    ordered::<Message>(
                                        joined_messages(own, st1.history[lid_chat]),
                                    ),
                                )
                            } else {
                                st1.history
                            },
                            stanzas: without_stanzas(st1.stanzas, lid_chat),
                            ..st1
                        },
                        Some((orphan, pn_chat)),
                    )
                } else {
                    (st1, None)
                },
                None => (st1, None),
            }
        },
    }
}

/// The account with the rows of opaque identities folded, one after the other,
/// and for each row that went, the row and the chat that took it over.
pub open spec fn lids_folded(
    st: WaV,
    bases: Seq<Seq<char>>,
    found: Map<Seq<char>, Seq<char>>,
) -> (WaV, Seq<(ChatV, ChatIdV)>)
    decreases bases.len(),
{
    if bases.len() == 0 {
        (st, Seq::empty())
    } else {
        let (st1, out) = lids_folded(st, bases.drop_last(), found);
        let (st2, gone) = lid_folded(st1, bases.last(), found);
        match gone {
            Some(c) => (st2, out.push(c)),
            None => (st2, out),
        }
    }
}

/// The rows of chats, as far as there are any.
pub open spec fn rows_of_chats(chats: Seq<ChatV>, ids: Seq<(ChatV, ChatIdV)>) -> Seq<ChatV>
    decreases ids.len(),
{
    if ids.len() == 0 {
        Seq::empty()
    } else {
        let rest = rows_of_chats(chats, ids.drop_last());
        match first_of(chat_ids(chats), ids.last().1) {
            Some(i) => rest.push(chats[i]),
            None => rest,
        }
    }
}

/// What is reported after rows were folded: the rows that went, the rows that
/// took them over, and the list.
pub open spec fn fold_events(st: WaV, gone: Seq<(ChatV, ChatIdV)>) -> Seq<BackendEventV> {
    if gone.len() == 0 {
        Seq::empty()
    } else {
        gone.map_values(|g: (ChatV, ChatIdV)| BackendEventV::ChatRemoved { chat: g.0 })
            + rows_of_chats(st.chats, gone).map_values(
            |c: ChatV| BackendEventV::ChatUpdated(c),
        ) + seq![
            BackendEventV::ChatList(snapshot(st)),
            BackendEventV::Status("merged duplicate chats"@),
        ]
    }
}

// Names from the directory.

/// The peers to ask the directory about: one-to-one chats, not the account
/// itself, not asked before, each once. Also the addresses met.
pub open spec fn name_candidates(
    st: WaV,
    chats: Seq<ChatV>,
    own: Seq<Seq<char>>,
) -> (Seq<Seq<char>>, Seq<(Seq<char>, Seq<char>, Seq<char>)>)
    decreases chats.len(),
{
    if chats.len() == 0 {
        (Seq::empty(), Seq::empty())
    } else {
        let (met, out) = name_candidates(st, chats.drop_last(), own);
        match chats.last().id {
            ChatIdV::WhatsApp(raw) => match jid_of(raw) {
                Some(jid) => {
                    let key = bare(jid.0, jid.1);
                    if !(is_pn(jid) || is_lid(jid)) || own.contains(key)
                        || st.usync_names.dom().contains(raw)
                        || st.usync_attempted.dom().contains(raw) || met.contains(key) {
                        (met, out)
                    } else {
                        (met.push(key), out.push(jid))
                    }
                },
                None => (met, out),
            },
            _ => (met, out),
        }
    }
}

/// The name that the directory, or else the phone number, gives a peer.
pub open spec fn directory_name(
    r: UsyncResult,
    found: Map<Seq<char>, Seq<char>>,
    pushnames: Map<Seq<char>, Seq<char>>,
) -> Option<Seq<char>> {
    let base = user_base_of(r.jid.user@);
    let lid = is_lid(r.jid.parts());
    let profile = match non_blank(crate::backend::opt_text(r.username)) {
        Some(n) => Some(n),
        None => match r.verified_name {
            Some(v) => non_blank(crate::backend::opt_text(v)),
            None => None,
        },
    };
    let first = match profile {
        Some(n) => Some(n),
        None => match r.pn_jid {
            Some(pn) => if lid {
                Some(pretty_number(user_base_of(pn.user@)))
            } else {
                None
            },
            None => None,
        },
    };
    let name = match first {
        Some(n) => Some(n),
        None => if lid && found.dom().contains(base) {
            Some(number_name(found[base], pushnames))
        } else {
            None
        },
    };
    non_blank(name)
}

/// The chats with one of them named.
pub open spec fn named_chat(
    chats: Seq<ChatV>,
    key: Seq<char>,
    name: Seq<char>,
    business: bool,
) -> Seq<ChatV> {
    match first_of(chat_ids(chats), ChatIdV::WhatsApp(key)) {
        Some(i) => chats.update(i, ChatV { contact_name: name, verified: business, ..chats[i] }),
        None => chats,
    }
}

/// The account with one answer of the directory taken in. Whoever was asked
/// about is not asked about again, also where there is no name.
pub open spec fn with_directory_name(
    st: WaV,
    r: UsyncResult,
    found: Map<Seq<char>, Seq<char>>,
    pushnames: Map<Seq<char>, Seq<char>>,
) -> WaV {
    let asked = bare(r.jid.user@, r.jid.server@);
    match directory_name(r, found, pushnames) {
        None => WaV { usync_attempted: st.usync_attempted.insert(asked, ()), ..st },
        Some(name) => {
            let business = r.is_business && r.verified_name is Some;
            let st1 = WaV {
                usync_attempted: st.usync_attempted.insert(asked, ()),
                usync_names: st.usync_names.insert(asked, name),
                usync_verified: if business {
                    st.usync_verified.insert(asked, ())
                } else {
                    st.usync_verified
                },
                chats: named_chat(st.chats, asked, name, business),
                ..st
            };
            match r.pn_jid {
                Some(pn) => {
                    let key = bare(pn.user@, pn.server@);
                    WaV {
                        usync_names: st1.usync_names.insert(key, name),
                        usync_verified: if business {
                            st1.usync_verified.insert(key, ())
                        } else {
                            st1.usync_verified
                        },
                        chats: named_chat(st1.chats, key, name, business),
                        ..st1
                    }
                },
                None => st1,
            }
        },
    }
}

/// The account with the answers of the directory taken in.
pub open spec fn with_directory_names(
    st: WaV,
    rs: Seq<UsyncResult>,
    found: Map<Seq<char>, Seq<char>>,
    pushnames: Map<Seq<char>, Seq<char>>,
) -> WaV
    decreases rs.len(),
{
    if rs.len() == 0 {
        st
    } else {
        with_directory_name(
            with_directory_names(st, rs.drop_last(), found, pushnames),
            rs.last(),
            found,
            pushnames,
        )
    }
}

}
