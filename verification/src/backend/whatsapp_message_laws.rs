//! Laws of what a WhatsApp message does: the row it counts in, the chat it is
//! filed under, and what is reported of it.
use vstd::prelude::*;

use crate::backend::{ChatIdV, ChatV, MessageAction, MessageV};
use crate::backend::whatsapp::{WaContent, WaInbound, WaInfo};
use crate::backend::whatsapp_model::{
    author_name, canonical_id, history_of, ingested, ingested_all, learned, listed_message, newest,
    own_chat, pretty_number, previewed, quote_in, quoted_by, wa_media, wa_message, with_message,
    WaV,
};
use crate::jid::{bare, jid_of, pn_address, user_base_of};
use crate::text::blank;
use crate::tui::chat_model::{chat_ids, first_of_at, first_of_none, message_ids};

verus! {

/// Whether the row `i` is the row of a chat: the first one with its id.
pub open spec fn is_row_of(chats: Seq<ChatV>, i: int, chat: ChatIdV) -> bool {
    &&& 0 <= i < chats.len()
    &&& chats[i].id == chat
    &&& forall|k: int| 0 <= k < i ==> (#[trigger] chats[k]).id != chat
}

/// Whether no row is a chat's.
pub open spec fn has_no_row(chats: Seq<ChatV>, chat: ChatIdV) -> bool {
    forall|k: int| 0 <= k < chats.len() ==> (#[trigger] chats[k]).id != chat
}

proof fn row_is_first(chats: Seq<ChatV>, i: int, chat: ChatIdV)
    requires
        is_row_of(chats, i, chat),
    ensures
        crate::tui::chat_model::first_of(chat_ids(chats), chat) == Some(i),
        chat_ids(chats).contains(chat),
{
    let ids = chat_ids(chats);
    assert(ids[i] == chats[i].id);
    assert forall|k: int| 0 <= k < i implies ids[k] != chat by {
        assert(ids[k] == chats[k].id);
    }
    first_of_at(ids, chat, i);
}

proof fn no_row_is_first(chats: Seq<ChatV>, chat: ChatIdV)
    requires
        has_no_row(chats, chat),
    ensures
        crate::tui::chat_model::first_of(chat_ids(chats), chat) is None,
        !chat_ids(chats).contains(chat),
{
    let ids = chat_ids(chats);
    assert forall|k: int| 0 <= k < ids.len() implies ids[k] != chat by {
        assert(ids[k] == chats[k].id);
    }
    first_of_none(ids, chat);
}

/// In a listed chat every message of someone else counts one more and makes the
/// chat unread, up to the end of the counter; the user's own messages count
/// nothing.
pub proof fn incoming_messages_count_one_each(st: WaV, chat: ChatIdV, m: MessageV, i: int)
    requires
        is_row_of(st.chats, i, chat),
    ensures
        !m.from_me && st.chats[i].unread_count < i32::MAX ==> listed_message(
            st,
            chat,
            m,
        ).chats[i].unread_count == st.chats[i].unread_count + 1,
        !m.from_me && st.chats[i].unread_count == i32::MAX ==> listed_message(
            st,
            chat,
            m,
        ).chats[i].unread_count == i32::MAX,
        !m.from_me ==> listed_message(st, chat, m).chats[i].unread,
        m.from_me ==> listed_message(st, chat, m).chats[i].unread_count
            == st.chats[i].unread_count,
        m.from_me ==> listed_message(st, chat, m).chats[i].unread == st.chats[i].unread,
{
    row_is_first(st.chats, i, chat);
}

/// A message changes nothing else of its row, no other row, and no place in the
/// list; only the user's own chat is named and stands unverified.
pub proof fn messages_leave_the_other_rows(st: WaV, chat: ChatIdV, m: MessageV, i: int, j: int)
    requires
        is_row_of(st.chats, i, chat),
        0 <= j < st.chats.len(),
    ensures
        listed_message(st, chat, m).chats.len() == st.chats.len(),
        j != i ==> listed_message(st, chat, m).chats[j] == st.chats[j],
        ({
            let old = st.chats[i];
            let new = listed_message(st, chat, m).chats[i];
            let own = (st.own_lid is Some && chat == ChatIdV::WhatsApp(st.own_lid.unwrap())) || (
            st.own_pn is Some && chat == ChatIdV::WhatsApp(st.own_pn.unwrap()));
            &&& new.id == old.id
            &&& new.fixed == old.fixed
            &&& new.status == old.status
            &&& new.scroll == old.scroll
            &&& new.last_message_ts == old.last_message_ts
            &&& !own ==> new.contact_name == old.contact_name && new.verified == old.verified
            &&& own ==> new.contact_name == "Myself"@ && !new.verified
        }),
{
    row_is_first(st.chats, i, chat);
}

/// A message to a chat without a row opens one at the end of the list: unread
/// with a count of one where someone else wrote it, else read.
pub proof fn a_first_message_opens_a_row(st: WaV, chat: ChatIdV, m: MessageV)
    requires
        has_no_row(st.chats, chat),
    ensures
        listed_message(st, chat, m).chats.len() == st.chats.len() + 1,
        listed_message(st, chat, m).chats.drop_last() == st.chats,
        ({
            let row = listed_message(st, chat, m).chats.last();
            &&& row.id == chat
            &&& row.unread == !m.from_me
            &&& m.from_me ==> row.unread_count == 0
            &&& !m.from_me ==> row.unread_count == 1
            &&& !row.fixed
            &&& !row.verified
            &&& row.scroll == 0
            &&& row.status is None
            &&& row.last_message_ts is None
        }),
{
    no_row_is_first(st.chats, chat);
    assert(listed_message(st, chat, m).chats.drop_last() =~= st.chats);
}

/// A chat that a message opens is named after who wrote it; where that is not
/// known, after the address. The user's own messages name it by the user.
pub proof fn opened_rows_are_named(st: WaV, raw: Seq<char>, m: MessageV)
    requires
        has_no_row(st.chats, ChatIdV::WhatsApp(raw)),
    ensures
        ({
            let chat = ChatIdV::WhatsApp(raw);
            let name = listed_message(st, chat, m).chats.last().contact_name;
            let own = st.own_lid == Some(raw) || st.own_pn == Some(raw);
            let told = m.sender.len() > 0 && m.sender != "Unknown"@;
            &&& !m.from_me && told ==> name == m.sender
            &&& !m.from_me && !told && jid_of(raw) is Some ==> name == user_base_of(
                jid_of(raw).unwrap().0,
            )
            &&& !m.from_me && !told && jid_of(raw) is None ==> name == raw
            &&& m.from_me && own ==> name == "Myself"@
            &&& m.from_me && !own ==> name == "You"@
        }),
{
    reveal_strlit("Myself");
    reveal_strlit("You");
    reveal_strlit("Unknown");
    let unknown = "Unknown"@;
    assert("Myself"@[0] == 'M' && "You"@[0] == 'Y' && unknown[0] == 'U');
    no_row_is_first(st.chats, ChatIdV::WhatsApp(raw));
}

/// The line that sums up a chat is its latest message with who wrote it, and
/// the lines of the other chats stay.
pub proof fn messages_are_summed_up(st: WaV, chat: ChatIdV, m: MessageV, other: ChatIdV)
    requires
        other != chat,
    ensures
        listed_message(st, chat, m).previews.dom().contains(chat),
        m.from_me ==> listed_message(st, chat, m).previews[chat] == "You: "@ + m.text,
        !m.from_me ==> listed_message(st, chat, m).previews[chat] == m.sender + ": "@ + m.text,
        listed_message(st, chat, m).previews.dom().contains(other)
            == st.previews.dom().contains(other),
        st.previews.dom().contains(other) ==> listed_message(st, chat, m).previews[other]
            == st.previews[other],
        listed_message(st, chat, m).history == st.history,
        listed_message(st, chat, m).stanzas == st.stanzas,
{
}

/// A message keeps who wrote it, when, and under which id; the user's own
/// messages are signed so, and only they can be edited and deleted.
pub proof fn messages_keep_their_origin(chat: ChatIdV, info: WaInfo, c: WaContent, st: WaV)
    ensures
        wa_message(chat, info, c, st).message_id == info.id@,
        wa_message(chat, info, c, st).chat == chat,
        wa_message(chat, info, c, st).timestamp == info.timestamp,
        wa_message(chat, info, c, st).from_me == info.from_me,
        wa_message(chat, info, c, st).author_id == Some(info.sender.full@),
        info.from_me ==> wa_message(chat, info, c, st).sender == "You"@,
        !info.from_me && !blank(info.push_name@) ==> wa_message(chat, info, c, st).sender
            == info.push_name@,
        !wa_message(chat, info, c, st).pending,
        !wa_message(chat, info, c, st).failed,
        wa_message(chat, info, c, st).msg_actions.contains(MessageAction::Reply),
        wa_message(chat, info, c, st).msg_actions[0] == MessageAction::Reply,
        wa_message(chat, info, c, st).msg_actions.contains(MessageAction::Edit) == info.from_me,
        wa_message(chat, info, c, st).msg_actions.contains(MessageAction::Delete) == info.from_me,
        !wa_message(chat, info, c, st).msg_actions.contains(MessageAction::Retry),
        wa_message(chat, info, c, st).msg_actions.len() == if info.from_me { 3int } else { 1 },
        info.from_me ==> wa_message(chat, info, c, st).msg_actions[1] == MessageAction::Edit,
{
    let a = wa_message(chat, info, c, st).msg_actions;
    assert(a[0] == MessageAction::Reply);
    if info.from_me {
        assert(a[1] == MessageAction::Edit);
        assert(a[2] == MessageAction::Delete);
    }
}

/// A message without media says its text; one with media says its caption, and
/// without one what it is.
pub proof fn messages_say_what_they_hold(chat: ChatIdV, info: WaInfo, c: WaContent, st: WaV)
    ensures
        ({
            let m = wa_message(chat, info, c, st);
            let plain = !c.image && !c.video && !c.audio && !c.sticker && !c.document;
            &&& m.media is None <==> plain
            &&& plain && c.text is Some ==> m.text == c.text.unwrap()@
            &&& plain && c.text is None ==> m.text == ""@
            &&& !plain && c.caption is Some && !blank(c.caption.unwrap()@) ==> m.text
                == c.caption.unwrap()@
            &&& !plain && (c.caption is None || blank(c.caption.unwrap()@)) ==> m.text
                == crate::backend::media_label(m.media.unwrap().kind) + ", click to show"@
            &&& !plain && c.caption is Some ==> m.media.unwrap().caption == Some(
                c.caption.unwrap()@,
            )
            &&& !plain && c.file_name is Some ==> m.media.unwrap().file_name == Some(
                c.file_name.unwrap()@,
            )
            &&& c.image ==> m.media.unwrap().kind is Image
            &&& c.video && !c.image ==> m.media.unwrap().kind is Video
            &&& c.audio && !c.image && !c.video ==> m.media.unwrap().kind is Audio
            &&& c.sticker && !c.image && !c.video && !c.audio ==> m.media.unwrap().kind is Sticker
            &&& c.document && !c.image && !c.video && !c.audio && !c.sticker
                ==> m.media.unwrap().kind is Document
        }),
{
}

/// A message that quotes nothing is no reply; one that quotes answers the
/// stanza that its text, else its picture, its video or its document names, and
/// shows the quoted message where that is known.
pub proof fn quotes_name_their_message(chat: ChatIdV, info: WaInfo, c: WaContent, st: WaV)
    ensures
        ({
            let m = wa_message(chat, info, c, st);
            let id = m.reply_to_id.unwrap();
            &&& c.text_quote is None && c.image_quote is None && c.video_quote is None
                && c.document_quote is None ==> m.reply_to_id is None
            &&& c.text_quote is Some && c.text_quote.unwrap().stanza_id is Some ==> m.reply_to_id
                == Some(c.text_quote.unwrap().stanza_id.unwrap()@)
            &&& c.text_quote is None && c.image_quote is Some
                && c.image_quote.unwrap().stanza_id is Some ==> m.reply_to_id == Some(
                c.image_quote.unwrap().stanza_id.unwrap()@,
            )
            &&& c.text_quote is None && c.image_quote is None && c.video_quote is Some
                && c.video_quote.unwrap().stanza_id is Some ==> m.reply_to_id == Some(
                c.video_quote.unwrap().stanza_id.unwrap()@,
            )
            &&& c.text_quote is None && c.image_quote is None && c.video_quote is None
                && c.document_quote is Some && c.document_quote.unwrap().stanza_id is Some
                ==> m.reply_to_id == Some(c.document_quote.unwrap().stanza_id.unwrap()@)
            &&& m.reply_to_id is None ==> m.reply_ctx is None
            &&& m.reply_ctx is Some ==> m.reply_to_id is Some && m.reply_ctx.unwrap().id == id
                && exists|k: int|
                0 <= k < st.history[st.stanzas[id].0].len() && ({
                    let q = #[trigger] st.history[st.stanzas[id].0][k];
                    q.message_id == id && q.text == m.reply_ctx.unwrap().text && q.sender
                        == m.reply_ctx.unwrap().sender && q.timestamp
                        == m.reply_ctx.unwrap().timestamp
                })
        }),
{
    let m = wa_message(chat, info, c, st);
    if m.reply_ctx is Some {
        let id = m.reply_to_id.unwrap();
        let h = st.history[st.stanzas[id].0];
        crate::tui::chat_model::first_of_is_least(message_ids(h), id);
        let k = crate::tui::chat_model::first_of(message_ids(h), id).unwrap();
        assert(message_ids(h)[k] == h[k].message_id);
        assert(h[k].message_id == id);
    }
}

/// A known message that is quoted is shown in the reply.
pub proof fn known_quotes_are_shown(
    chat: ChatIdV,
    info: WaInfo,
    c: WaContent,
    st: WaV,
    k: int,
)
    requires
        wa_message(chat, info, c, st).reply_to_id is Some,
        ({
            let id = wa_message(chat, info, c, st).reply_to_id.unwrap();
            &&& st.stanzas.dom().contains(id)
            &&& st.history.dom().contains(st.stanzas[id].0)
            &&& 0 <= k < st.history[st.stanzas[id].0].len()
            &&& st.history[st.stanzas[id].0][k].message_id == id
        }),
    ensures
        wa_message(chat, info, c, st).reply_ctx is Some,
{
    let id = wa_message(chat, info, c, st).reply_to_id.unwrap();
    let h = st.history[st.stanzas[id].0];
    crate::tui::chat_model::first_of_is_least(message_ids(h), id);
    assert(message_ids(h)[k] == id);
}

/// A quote repeats the quoted message: its id, its author, its text and its time;
/// a message that is not known has none.
pub proof fn quotes_repeat_the_message(h: Seq<MessageV>, id: Seq<char>, k: int)
    requires
        0 <= k < h.len(),
        h[k].message_id == id,
        forall|j: int| 0 <= j < k ==> (#[trigger] h[j]).message_id != id,
    ensures
        quote_in(h, id) is Some,
        quote_in(h, id).unwrap().id == id,
        quote_in(h, id).unwrap().sender == h[k].sender,
        quote_in(h, id).unwrap().text == h[k].text,
        quote_in(h, id).unwrap().timestamp == h[k].timestamp,
        h[k].reply_to_id is None ==> quoted_by(h, id) is None,
        h[k].reply_to_id is Some ==> quoted_by(h, id) == quote_in(h, h[k].reply_to_id.unwrap()),
        forall|other: Seq<char>|
            (forall|j: int| 0 <= j < h.len() ==> (#[trigger] h[j]).message_id != other)
                ==> #[trigger] quote_in(h, other) is None && quoted_by(h, other) is None,
{
    let ids = message_ids(h);
    crate::tui::chat_model::first_of_at(ids, id, k);
    assert forall|other: Seq<char>|
        (forall|j: int| 0 <= j < h.len() ==> (
        #[trigger] h[j]).message_id != other) implies #[trigger] quote_in(h, other) is None
        && quoted_by(h, other) is None by {
        crate::tui::chat_model::first_of_none(ids, other);
    }
}

/// Only broadcasts and messages that hold nothing are passed over, and a
/// broadcast changes nothing.
pub proof fn every_message_with_content_is_taken_in(
    st: WaV,
    inb: WaInbound,
    found: Map<Seq<char>, Seq<char>>,
)
    ensures
        inb.broadcast ==> ingested(st, inb, found) == (st, None::<MessageV>),
        ({
            let c = inb.content;
            let plain = !c.image && !c.video && !c.audio && !c.sticker && !c.document;
            let silent = plain && (c.text is None || c.text.unwrap()@.len() == 0);
            ingested(st, inb, found).1 is None <==> inb.broadcast || silent
        }),
        ingested(st, inb, found).1 is None ==> ingested(st, inb, found).0.chats == st.chats
            && ingested(st, inb, found).0.history == st.history && ingested(
            st,
            inb,
            found,
        ).0.previews == st.previews,
{
    reveal_strlit("");
    reveal_strlit(", click to show");
    let label = crate::backend::media_label(
        wa_media(inb.content).unwrap().kind,
    ) + ", click to show"@;
    assert(label.len() > 0);
}

proof fn lookup_keeps_the_rest(st: WaV, chat: ChatIdV, found: Map<Seq<char>, Seq<char>>)
    ensures
        canonical_id(st, chat, found).0.chats == st.chats,
        canonical_id(st, chat, found).0.history == st.history,
        canonical_id(st, chat, found).0.stanzas == st.stanzas,
        canonical_id(st, chat, found).0.previews == st.previews,
        canonical_id(st, chat, found).0.own_lid == st.own_lid,
        canonical_id(st, chat, found).0.own_pn == st.own_pn,
{
}

/// A message that is taken in is reported as it came, filed once at the end of
/// its chat, and known by its id; no other chat gains or loses a message.
pub proof fn taken_in_messages_are_filed(
    st: WaV,
    inb: WaInbound,
    found: Map<Seq<char>, Seq<char>>,
    other: ChatIdV,
)
    requires
        ingested(st, inb, found).1 is Some,
        other != ingested(st, inb, found).1.unwrap().chat,
    ensures
        ({
            let (st2, r) = ingested(st, inb, found);
            let m = r.unwrap();
            let before = history_of(st, m.chat);
            let after = history_of(st2, m.chat);
            let known = exists|k: int|
                0 <= k < before.len() && (#[trigger] before[k]).message_id == inb.info.id@;
            &&& m.message_id == inb.info.id@
            &&& m.from_me == inb.info.from_me
            &&& m.timestamp == inb.info.timestamp
            &&& !known ==> after.len() == before.len() + 1 && after.last() == m
                && after.drop_last() == before
            &&& known ==> after == before
            &&& history_of(st2, other) == history_of(st, other)
            &&& st2.stanzas.dom().contains(m.message_id)
            &&& st2.stanzas[m.message_id] == (m.chat, m.message_id)
            &&& exists|i: int| 0 <= i < st2.chats.len() && (#[trigger] st2.chats[i]).id == m.chat
        }),
{
    let (st2, r) = ingested(st, inb, found);
    let m = r.unwrap();
    let chat0 = own_chat(
        st.own_lid,
        st.own_pn,
        ChatIdV::WhatsApp(crate::jid::canonical(inb.chat@)),
        inb.info.from_me,
    );
    lookup_keeps_the_rest(st, chat0, found);
    let before = history_of(st, m.chat);
    let known = exists|k: int|
        0 <= k < before.len() && (#[trigger] before[k]).message_id == inb.info.id@;
    let ids = message_ids(before);
    if known {
        let k = choose|k: int|
            0 <= k < before.len() && (#[trigger] before[k]).message_id == inb.info.id@;
        assert(ids[k] == inb.info.id@);
    } else if ids.contains(inb.info.id@) {
        let k = choose|k: int| 0 <= k < ids.len() && ids[k] == inb.info.id@;
        assert(before[k].message_id == inb.info.id@);
    }
    assert(history_of(st2, m.chat).drop_last() =~= before || known);
    crate::backend::whatsapp_laws::incoming_messages_are_unread(st, m.chat, m);
    let (st1, chat) = canonical_id(st, chat0, found);
    let st3 = if inb.info.from_me { st1 } else { learned(st1, inb.info.sender.parts(), found) };
    let st4 = WaV { stanzas: st3.stanzas.insert(m.message_id, (chat, m.message_id)), ..st3 };
    let st5 = if message_ids(history_of(st4, chat)).contains(m.message_id) { st4 } else {
        with_message(st4, chat, m)
    };
    crate::backend::whatsapp_laws::incoming_messages_are_unread(st5, chat, m);
    let idx = choose|i: int|
        0 <= i < chat_ids(st2.chats).len() && chat_ids(st2.chats)[i] == m.chat;
    assert(st2.chats[idx].id == m.chat);
}

/// A message that is taken in counts in the row of its chat: one more for a
/// message of someone else, nothing for the user's own, and no other row moves.
pub proof fn taken_in_messages_are_counted(
    st: WaV,
    inb: WaInbound,
    found: Map<Seq<char>, Seq<char>>,
    i: int,
)
    requires
        ingested(st, inb, found).1 is Some,
        is_row_of(st.chats, i, ingested(st, inb, found).1.unwrap().chat),
    ensures
        ({
            let (st2, r) = ingested(st, inb, found);
            &&& st2.chats.len() == st.chats.len()
            &&& inb.info.from_me ==> st2.chats[i].unread_count == st.chats[i].unread_count
            &&& !inb.info.from_me && st.chats[i].unread_count < i32::MAX
                ==> st2.chats[i].unread_count == st.chats[i].unread_count + 1
            &&& !inb.info.from_me ==> st2.chats[i].unread
            &&& forall|j: int|
                0 <= j < st.chats.len() && j != i ==> #[trigger] st2.chats[j] == st.chats[j]
        }),
{
    let (st2, r) = ingested(st, inb, found);
    let m = r.unwrap();
    let chat0 = own_chat(
        st.own_lid,
        st.own_pn,
        ChatIdV::WhatsApp(crate::jid::canonical(inb.chat@)),
        inb.info.from_me,
    );
    lookup_keeps_the_rest(st, chat0, found);
    row_is_first(st.chats, i, m.chat);
}

/// Where a message goes: to the chat of its address, but for the user's own
/// messages to their opaque identity, which go to their number, and for an
/// opaque identity whose number has a chat, which go to that chat.
pub proof fn messages_reach_their_chat(
    st: WaV,
    inb: WaInbound,
    found: Map<Seq<char>, Seq<char>>,
)
    requires
        ingested(st, inb, found).1 is Some,
    ensures
        ({
            let m = ingested(st, inb, found).1.unwrap();
            let at = crate::jid::canonical(inb.chat@);
            let own = inb.info.from_me && st.own_lid == Some(at) && st.own_pn is Some;
            let raw = if own { st.own_pn.unwrap() } else { at };
            let jid = jid_of(raw).unwrap();
            let base = user_base_of(jid.0);
            let pn = if st.lid_pn.dom().contains(base) { st.lid_pn[base] } else { found[base] };
            let opaque = jid_of(raw) is Some && jid.1 == "lid"@ && (st.lid_pn.dom().contains(base)
                || found.dom().contains(base));
            let listed = exists|k: int|
                0 <= k < st.chats.len() && (#[trigger] st.chats[k]).id == ChatIdV::WhatsApp(
                    pn_address(pn),
                );
            &&& opaque && listed ==> m.chat == ChatIdV::WhatsApp(pn_address(pn))
            &&& !(opaque && listed) ==> m.chat == ChatIdV::WhatsApp(raw)
        }),
{
    let at = crate::jid::canonical(inb.chat@);
    let own = inb.info.from_me && st.own_lid == Some(at) && st.own_pn is Some;
    let raw = if own { st.own_pn.unwrap() } else { at };
    let jid = jid_of(raw).unwrap();
    let base = user_base_of(jid.0);
    let pn = if st.lid_pn.dom().contains(base) { st.lid_pn[base] } else { found[base] };
    let id = ChatIdV::WhatsApp(pn_address(pn));
    let ids = chat_ids(st.chats);
    if exists|k: int| 0 <= k < st.chats.len() && (#[trigger] st.chats[k]).id == id {
        let k = choose|k: int| 0 <= k < st.chats.len() && (#[trigger] st.chats[k]).id == id;
        assert(ids[k] == id);
    } else if ids.contains(id) {
        let k = choose|k: int| 0 <= k < ids.len() && ids[k] == id;
        assert(st.chats[k].id == id);
    }
}

/// A batch is its messages one after the other, in the order of arrival.
pub proof fn batches_are_taken_in_one_by_one(
    st: WaV,
    batch: Seq<WaInbound>,
    inb: WaInbound,
    found: Map<Seq<char>, Seq<char>>,
)
    ensures
        ingested_all(st, Seq::empty(), found) == (st, Seq::<MessageV>::empty()),
        ({
            let (st1, out) = ingested_all(st, batch, found);
            let (st2, m) = ingested(st1, inb, found);
            let (st3, all) = ingested_all(st, batch.push(inb), found);
            &&& st3 == st2
            &&& m is Some ==> all == out.push(m.unwrap())
            &&& m is None ==> all == out
        }),
{
    assert(batch.push(inb).drop_last() =~= batch);
}

/// The newest message is none older than any other, and of those at one time
/// the last.
pub proof fn newest_message_is_the_last_of_the_latest(msgs: Seq<MessageV>)
    ensures
        newest(msgs) is None <==> msgs.len() == 0,
        msgs.len() > 0 ==> exists|i: int|
            0 <= i < msgs.len() && newest(msgs) == Some(#[trigger] msgs[i]) && (forall|j: int|
                0 <= j < msgs.len() ==> (#[trigger] msgs[j]).timestamp <= msgs[i].timestamp) && (
            forall|j: int|
                i < j < msgs.len() ==> (#[trigger] msgs[j]).timestamp < msgs[i].timestamp),
    decreases msgs.len(),
{
    if msgs.len() > 0 {
        let d = msgs.drop_last();
        newest_message_is_the_last_of_the_latest(d);
        let n = msgs.len() - 1;
        assert(msgs.last() == msgs[n]);
        if d.len() > 0 {
            let i = choose|i: int|
                0 <= i < d.len() && newest(d) == Some(#[trigger] d[i]) && (forall|j: int|
                    0 <= j < d.len() ==> (#[trigger] d[j]).timestamp <= d[i].timestamp) && (
                forall|j: int| i < j < d.len() ==> (#[trigger] d[j]).timestamp < d[i].timestamp);
            assert(d[i] == msgs[i]);
            assert forall|j: int| 0 <= j < d.len() implies (#[trigger] msgs[j]).timestamp
                <= d[i].timestamp by {
                assert(d[j] == msgs[j]);
            }
            assert forall|j: int| i < j < d.len() implies (#[trigger] msgs[j]).timestamp
                < d[i].timestamp by {
                assert(d[j] == msgs[j]);
            }
        }
    }
}

/// The line that sums up a listed chat is its newest message with who wrote it;
/// a chat without messages has none, and a chat without a row gets none.
pub proof fn summaries_show_the_newest_message(st: WaV, chat: ChatIdV)
    ensures
        has_no_row(st.chats, chat) ==> previewed(st, chat) == st,
        ({
            let m = newest(history_of(st, chat));
            let p = previewed(st, chat).previews;
            &&& !has_no_row(st.chats, chat) && m is None ==> !p.dom().contains(chat)
            &&& !has_no_row(st.chats, chat) && m is Some && m.unwrap().from_me ==> p.dom().contains(
                chat,
            ) && p[chat] == "You: "@ + m.unwrap().text
            &&& !has_no_row(st.chats, chat) && m is Some && !m.unwrap().from_me
                ==> p.dom().contains(chat) && p[chat] == m.unwrap().sender + ": "@
                + m.unwrap().text
        }),
        previewed(st, chat).chats == st.chats,
        previewed(st, chat).history == st.history,
{
    if has_no_row(st.chats, chat) {
        no_row_is_first(st.chats, chat);
    } else {
        let k = choose|k: int| 0 <= k < st.chats.len() && (#[trigger] st.chats[k]).id == chat;
        assert(chat_ids(st.chats)[k] == chat);
    }
}

/// An author is called by the name in the message, else by the name known for
/// the address, else by the number behind an opaque identity, else by the
/// address.
pub proof fn authors_are_called_by_their_best_name(
    push_name: Seq<char>,
    jid: (Seq<char>, Seq<char>, Seq<char>),
    pushnames: Map<Seq<char>, Seq<char>>,
    lid_pn: Map<Seq<char>, Seq<char>>,
)
    ensures
        ({
            let name = author_name(push_name, jid, pushnames, lid_pn);
            let own = bare(jid.0, jid.1);
            let base = user_base_of(jid.0);
            let told = pushnames.dom().contains(own) && !blank(pushnames[own]);
            let numbered = jid.1 == "lid"@ && lid_pn.dom().contains(base);
            let number = lid_pn[base];
            let numbered_name = pushnames.dom().contains(pn_address(number)) && !blank(
                pushnames[pn_address(number)],
            );
            &&& !blank(push_name) ==> name == push_name
            &&& blank(push_name) && told ==> name == pushnames[own]
            &&& blank(push_name) && !told && numbered && numbered_name ==> name
                == pushnames[pn_address(number)]
            &&& blank(push_name) && !told && numbered && !numbered_name ==> name == pretty_number(
                number,
            )
            &&& blank(push_name) && !told && !numbered && base.len() > 0 ==> name == base
            &&& blank(push_name) && !told && !numbered && base.len() == 0 ==> name == "Unknown"@
        }),
{
}

}
