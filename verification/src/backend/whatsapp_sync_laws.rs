//! Laws of what the server's reports do to a WhatsApp account: conversations of
//! a history sync, changes on linked devices, presence, and the directory.
use vstd::prelude::*;

use crate::backend::{BackendEventV, ChatIdV, ChatV, Message, MessageAction, MessageV};
use crate::backend::whatsapp::{
    event_step, presence_step, WaConversation, WaEvent, WaPushname, WaWebMessage,
};
use crate::backend::whatsapp_message_laws::{has_no_row, is_row_of};
use crate::backend::whatsapp_model::{
    absorbed, conversation_name, history_of, joined_messages, learned, listed_conversation,
    new_messages, only_digits, peer_chat, presence_text, pretty_number, previewed, skip_reason,
    snapshot, synced_conversation, web_message, with_messages, with_pushnames, WaV,
};
use crate::jid::{bare, canonical, jid_of, user_base_of};
use crate::order::{ordered, ordering_is_stable, ordering_keeps_members};
use crate::text::{blank, ends};
use crate::tui::chat_laws::removal_is_exact;
use crate::tui::chat_model::{
    chat_ids, first_of, first_of_at, first_of_none, message_ids, without_message,
};

verus! {

proof fn row_found(chats: Seq<ChatV>, i: int, chat: ChatIdV)
    requires
        is_row_of(chats, i, chat),
    ensures
        first_of(chat_ids(chats), chat) == Some(i),
        chat_ids(chats).contains(chat),
{
    let ids = chat_ids(chats);
    assert(ids[i] == chats[i].id);
    assert forall|k: int| 0 <= k < i implies ids[k] != chat by {
        assert(ids[k] == chats[k].id);
    }
    first_of_at(ids, chat, i);
}

proof fn row_missing(chats: Seq<ChatV>, chat: ChatIdV)
    requires
        has_no_row(chats, chat),
    ensures
        first_of(chat_ids(chats), chat) is None,
        !chat_ids(chats).contains(chat),
{
    let ids = chat_ids(chats);
    assert forall|k: int| 0 <= k < ids.len() implies ids[k] != chat by {
        assert(ids[k] == chats[k].id);
    }
    first_of_none(ids, chat);
}

/// A conversation is passed over exactly where it is no chat: a community's
/// parent, a marketing thread, a duplicate, one that is suspended, ended or
/// closed to the user, or an opaque identity that never wrote.
pub proof fn only_real_chats_are_listed(st: WaV, c: WaConversation, chat: ChatIdV)
    ensures
        skip_reason(c) is Some <==> c.is_parent_group == Some(true)
            || c.is_marketing_message_thread == Some(true) || c.pnh_duplicate_lid_thread == Some(
            true,
        ) || c.suspended == Some(true) || c.terminated == Some(true) || c.read_only == Some(true)
            || (ends(c.id@, "@lid"@) && c.pn_jid is None && c.conversation_timestamp is None
            && c.unread_count is None),
        skip_reason(c) is Some ==> listed_conversation(st, c, chat) == st,
{
}

/// A listed conversation never loses an unread mark, counts as many messages as
/// the larger of both counts and at least one where it was unread, and is
/// pinned exactly where the server says so; the other rows stay.
pub proof fn conversations_bring_their_row_up_to_date(
    st: WaV,
    c: WaConversation,
    chat: ChatIdV,
    i: int,
)
    requires
        skip_reason(c) is None,
        is_row_of(st.chats, i, chat),
    ensures
        ({
            let st2 = listed_conversation(st, c, chat);
            let old = st.chats[i];
            let new = st2.chats[i];
            let n = c.unread_count.unwrap();
            let small = c.unread_count is Some && n < 0x8000_0000;
            &&& st2.chats.len() == st.chats.len()
            &&& forall|j: int|
                0 <= j < st.chats.len() && j != i ==> #[trigger] st2.chats[j] == st.chats[j]
            &&& new.id == chat
            &&& new.fixed <==> (c.pinned is Some && c.pinned.unwrap() > 0)
            &&& old.unread ==> new.unread && new.unread_count >= 1
            &&& small && n > 0 ==> new.unread
            &&& !old.unread && (c.unread_count is None || n == 0) ==> !new.unread
            &&& new.unread_count >= old.unread_count
            &&& small ==> new.unread_count >= n
            &&& new.unread_count == old.unread_count || (small && new.unread_count == n)
                || new.unread_count == 1 || new.unread_count == 0 || (c.unread_count is Some
                && !small)
            &&& !old.unread && new.unread_count > old.unread_count && small
                ==> new.unread_count == n || new.unread_count == 0
            &&& c.unread_count is None && old.unread_count >= 1 ==> new.unread_count
                == old.unread_count
            &&& new.status == old.status
            &&& new.scroll == old.scroll
            &&& new.last_message_ts == old.last_message_ts
            &&& st2.previews == st.previews
            &&& st2.history == st.history
        }),
{
    row_found(st.chats, i, chat);
}

/// A conversation without a row opens one at the end, with the server's count,
/// mark and pin.
pub proof fn new_conversations_open_a_row(st: WaV, c: WaConversation, chat: ChatIdV)
    requires
        skip_reason(c) is None,
        has_no_row(st.chats, chat),
    ensures
        ({
            let st2 = listed_conversation(st, c, chat);
            let row = st2.chats.last();
            let n = c.unread_count.unwrap();
            &&& st2.chats.len() == st.chats.len() + 1
            &&& st2.chats.drop_last() == st.chats
            &&& row.id == chat
            &&& c.unread_count is None ==> row.unread_count == 0 && !row.unread
            &&& c.unread_count is Some && n < 0x8000_0000 ==> row.unread_count == n && (row.unread
                <==> n > 0)
            &&& row.fixed <==> (c.pinned is Some && c.pinned.unwrap() > 0)
            &&& row.status is None
            &&& row.last_message_ts is None
            &&& !st2.previews.dom().contains(chat)
        }),
{
    row_missing(st.chats, chat);
    assert(listed_conversation(st, c, chat).chats.drop_last() =~= st.chats);
}

/// What a row is called after a conversation: the user's own chat is called so,
/// and any other takes the conversation's name unless that is only the address.
pub proof fn conversations_name_their_row(st: WaV, c: WaConversation, raw: Seq<char>, i: int)
    requires
        skip_reason(c) is None,
        is_row_of(st.chats, i, ChatIdV::WhatsApp(raw)),
    ensures
        ({
            let new = listed_conversation(st, c, ChatIdV::WhatsApp(raw)).chats[i];
            let own = st.own_lid == Some(raw) || st.own_pn == Some(raw);
            let (name, business) = conversation_name(
                c,
                st.pushnames,
                st.usync_names,
                st.usync_verified,
            );
            &&& own && c.id@ != "Myself"@ ==> new.contact_name == "Myself"@ && !new.verified
            &&& !own && name != c.id@ ==> new.contact_name == name && new.verified == business
            &&& !own && name == c.id@ ==> new.contact_name == st.chats[i].contact_name
                && new.verified == st.chats[i].verified
        }),
{
    row_found(st.chats, i, ChatIdV::WhatsApp(raw));
}

/// A conversation is called by its own name, else as it is shown, else by its
/// push name, else by its name in the directory, else by its number; a group by
/// its own name alone. Only a name of the directory can be a business's.
pub proof fn conversations_are_called_by_their_best_name(
    c: WaConversation,
    pushnames: Map<Seq<char>, Seq<char>>,
    names: Map<Seq<char>, Seq<char>>,
    businesses: Map<Seq<char>, ()>,
)
    ensures
        ({
            let (name, business) = conversation_name(c, pushnames, names, businesses);
            let group = jid_of(c.id@) is Some && jid_of(c.id@).unwrap().1 == "g.us"@;
            let named = c.name is Some && !blank(c.name.unwrap()@);
            let shown = c.display_name is Some && !blank(c.display_name.unwrap()@);
            let key = if c.pn_jid is Some && !blank(c.pn_jid.unwrap()@) {
                c.pn_jid.unwrap()@
            } else {
                c.id@
            };
            let pushed = pushnames.dom().contains(key) && !blank(pushnames[key]);
            let listed = names.dom().contains(key) && !blank(names[key]);
            let phone = jid_of(key) is Some && jid_of(key).unwrap().1 == "s.whatsapp.net"@;
            let base = user_base_of(jid_of(c.id@).unwrap().0);
            &&& named ==> name == c.name.unwrap()@
            &&& group && !named ==> name == c.id@
            &&& !group && !named && shown ==> name == c.display_name.unwrap()@
            &&& !group && !named && !shown && pushed ==> name == pushnames[key]
            &&& !group && !named && !shown && !pushed && listed ==> name == names[key] && (business
                <==> businesses.dom().contains(key))
            &&& !group && !named && !shown && !pushed && !listed && phone ==> name
                == pretty_number(user_base_of(jid_of(key).unwrap().0))
            &&& !group && !named && !shown && !pushed && !listed && !phone && jid_of(c.id@) is Some
                && base.len() > 0 ==> name == base
            &&& !group && !named && !shown && !pushed && !listed && !phone && !(jid_of(
                c.id@,
            ) is Some && base.len() > 0) ==> name == c.id@
            &&& (group || named || shown || pushed || !listed) ==> !business
        }),
{
}

/// A phone number is shown by its digits alone: after a plus sign, and from
/// eight digits on as country, area, prefix and the last four.
pub proof fn numbers_are_shown_in_groups(pn: Seq<char>)
    ensures
        ({
            let d = only_digits(pn);
            let p = pretty_number(pn);
            &&& p[0] == '+'
            &&& d.len() < 8 ==> p.len() == d.len() + 1 && p.skip(1) == d
            &&& d.len() >= 8 ==> p.len() == d.len() + 4 && p[3] == ' ' && p[6] == ' '
                && p[p.len() - 5] == '-' && p.subrange(1, 3) == d.take(2) && p.subrange(4, 6)
                == d.subrange(2, 4) && p.subrange(7, p.len() - 5) == d.subrange(4, d.len() - 4)
                && p.skip(p.len() - 4) == d.skip(d.len() - 4)
        }),
{
    reveal_strlit("+");
    reveal_strlit(" ");
    reveal_strlit("-");
    let d = only_digits(pn);
    let p = pretty_number(pn);
    if d.len() < 8 {
        assert(p.skip(1) =~= d);
    } else {
        assert(p.subrange(1, 3) =~= d.take(2));
        assert(p.subrange(4, 6) =~= d.subrange(2, 4));
        assert(p.subrange(7, p.len() - 5) =~= d.subrange(4, d.len() - 4));
        assert(p.skip(p.len() - 4) =~= d.skip(d.len() - 4));
    }
}

/// The digits of a text are its digits in their order, and nothing else.
pub proof fn digits_are_kept_in_order(s: Seq<char>, c: char)
    ensures
        only_digits(Seq::empty()) == Seq::<char>::empty(),
        0x30 <= c as u32 <= 0x39 ==> only_digits(s.push(c)) == only_digits(s).push(c),
        !(0x30 <= c as u32 <= 0x39) ==> only_digits(s.push(c)) == only_digits(s),
{
    assert(s.push(c).drop_last() =~= s);
}

/// Of the messages of a conversation those are new that are complete, hold
/// something and are not known; each of them once.
pub proof fn only_unknown_messages_are_new(
    st: WaV,
    conv_id: Seq<char>,
    chat: ChatIdV,
    msgs: Seq<Option<WaWebMessage>>,
    now: i64,
)
    ensures
        ({
            let (met, out) = new_messages(st, conv_id, chat, msgs, now);
            &&& forall|k: int|
                0 <= k < out.len() ==> !message_ids(history_of(st, chat)).contains(
                    (#[trigger] out[k]).message_id,
                ) && out[k].chat == chat && met.contains(out[k].message_id) && (
                out[k].text.len() > 0 || out[k].media is Some)
            &&& forall|k: int, l: int|
                0 <= k < l < out.len() ==> (#[trigger] out[k]).message_id != (
                #[trigger] out[l]).message_id
        }),
    decreases msgs.len(),
{
    if msgs.len() > 0 {
        only_unknown_messages_are_new(st, conv_id, chat, msgs.drop_last(), now);
        let (met0, out0) = new_messages(st, conv_id, chat, msgs.drop_last(), now);
        let (met, out) = new_messages(st, conv_id, chat, msgs, now);
        assert forall|x: Seq<char>| met0.contains(x) implies #[trigger] met.contains(x) by {
            let q = choose|q: int| 0 <= q < met0.len() && met0[q] == x;
            assert(met[q] == x);
        }
        if met.len() > met0.len() {
            assert(met[met0.len() as int] == met.last());
            assert(met.contains(met.last()));
        }
        assert forall|k: int| 0 <= k < out.len() implies !message_ids(history_of(st, chat)).contains(
            (#[trigger] out[k]).message_id,
        ) && out[k].chat == chat && met.contains(out[k].message_id) && (out[k].text.len() > 0
            || out[k].media is Some) by {
            if k < out0.len() {
                assert(out[k] == out0[k]);
            }
        }
        assert forall|k: int, l: int| 0 <= k < l < out.len() implies (#[trigger] out[k]).message_id
            != (#[trigger] out[l]).message_id by {
            assert(out[k] == out0[k]);
            if l < out0.len() {
                assert(out[l] == out0[l]);
            }
        }
    }
}

/// A complete message of a conversation that holds something and was neither
/// known nor met before is new.
pub proof fn unknown_messages_are_taken_in(
    st: WaV,
    conv_id: Seq<char>,
    chat: ChatIdV,
    msgs: Seq<Option<WaWebMessage>>,
    web: WaWebMessage,
    now: i64,
)
    requires
        web.key is Some,
        web.key.unwrap().id is Some,
        web.message is Some,
        !new_messages(st, conv_id, chat, msgs, now).0.contains(web.key.unwrap().id.unwrap()@),
        !message_ids(history_of(st, chat)).contains(web.key.unwrap().id.unwrap()@),
    ensures
        ({
            let m = web_message(st, conv_id, chat, web, now);
            let out = new_messages(st, conv_id, chat, msgs, now).1;
            let all = new_messages(st, conv_id, chat, msgs.push(Some(web)), now).1;
            &&& m.text.len() > 0 || m.media is Some ==> all == out.push(m)
            &&& m.text.len() == 0 && m.media is None ==> all == out
        }),
{
    assert(msgs.push(Some(web)).drop_last() =~= msgs);
}

/// A message of a conversation keeps its id, its time and its author: the
/// participant that it names, else the conversation's peer; without a time it
/// counts as of now.
pub proof fn synced_messages_keep_their_origin(
    st: WaV,
    conv_id: Seq<char>,
    chat: ChatIdV,
    web: WaWebMessage,
    now: i64,
)
    requires
        web.key is Some,
        web.key.unwrap().id is Some,
        web.message is Some,
    ensures
        ({
            let m = web_message(st, conv_id, chat, web, now);
            let key = web.key.unwrap();
            let c = web.message.unwrap();
            let plain = !c.image && !c.video && !c.audio && !c.sticker && !c.document;
            let told = key.participant is Some && jid_of(key.participant.unwrap()@) is Some;
            &&& m.message_id == key.id.unwrap()@
            &&& m.chat == chat
            &&& m.from_me <==> key.from_me == Some(true)
            &&& m.from_me ==> m.sender == "You"@
            &&& !m.from_me && web.push_name is Some && !blank(web.push_name.unwrap()@) ==> m.sender
                == web.push_name.unwrap()@
            &&& web.timestamp is None ==> m.timestamp == now
            &&& web.timestamp is Some && web.timestamp.unwrap() <= i64::MAX ==> m.timestamp
                == web.timestamp.unwrap()
            &&& told ==> m.author_id == Some(jid_of(key.participant.unwrap()@).unwrap().2)
            &&& !told && jid_of(conv_id) is Some ==> m.author_id == Some(
                jid_of(conv_id).unwrap().2,
            )
            &&& m.msg_actions.contains(MessageAction::Reply)
            &&& m.msg_actions.contains(MessageAction::Edit) <==> m.from_me
            &&& m.msg_actions.contains(MessageAction::Delete) <==> m.from_me
            &&& !m.pending && !m.failed
            &&& plain && c.text is Some ==> m.text == c.text.unwrap()@
            &&& m.media is None <==> plain
            &&& !plain && c.caption is Some && !blank(c.caption.unwrap()@) ==> m.text
                == c.caption.unwrap()@
        }),
{
    let a = web_message(st, conv_id, chat, web, now).msg_actions;
    assert(a[0] == MessageAction::Reply);
    if web.key.unwrap().from_me == Some(true) {
        assert(a[1] == MessageAction::Edit);
        assert(a[2] == MessageAction::Delete);
    }
}

/// A conversation's new messages end up in its chat, none twice, after those
/// that were there, and every other chat keeps what it had.
pub proof fn synced_conversations_keep_histories(
    st: WaV,
    c: WaConversation,
    chat: ChatIdV,
    now: i64,
    other: ChatIdV,
    m: MessageV,
)
    requires
        other != chat,
    ensures
        ({
            let st2 = synced_conversation(st, c, chat, now);
            let fresh = new_messages(listed_conversation(st, c, chat), c.id@, chat, c.messages@, now).1;
            &&& history_of(st2, other) == history_of(st, other)
            &&& history_of(st2, chat).take(history_of(st, chat).len() as int) == history_of(st, chat)
            &&& fresh.contains(m) ==> history_of(st2, chat).contains(m)
            &&& history_of(st2, chat).contains(m) ==> fresh.contains(m) || history_of(
                st,
                chat,
            ).contains(m)
        }),
{
    let st1 = listed_conversation(st, c, chat);
    let fresh = new_messages(st1, c.id@, chat, c.messages@, now).1;
    let list = ordered::<Message>(fresh);
    let st2 = with_messages(st1, chat, list);
    assert(history_of(st1, chat) == history_of(st, chat));
    assert(history_of(st1, other) == history_of(st, other));
    crate::backend::whatsapp_laws::added_messages_keep_history(st1, chat, list);
    ordering_is_stable::<Message>(fresh);
    ordering_keeps_members::<Message>(fresh, m);
    only_unknown_messages_are_new(st1, c.id@, chat, c.messages@, now);
    added_messages_are_exact(st1, chat, list, m);
    if fresh.contains(m) {
        let k = choose|k: int| 0 <= k < fresh.len() && fresh[k] == m;
        assert(!message_ids(history_of(st1, chat)).contains(fresh[k].message_id));
        assert(list.contains(m));
        assert forall|q: int|
            0 <= q < list.len() && (#[trigger] list[q]).message_id == m.message_id implies list[q]
            == m by {
            ordering_keeps_members::<Message>(fresh, list[q]);
            assert(list.contains(list[q]));
            let k2 = choose|k2: int| 0 <= k2 < fresh.len() && fresh[k2] == list[q];
            if k2 < k {
                assert(fresh[k2].message_id != fresh[k].message_id);
            } else if k < k2 {
                assert(fresh[k].message_id != fresh[k2].message_id);
            }
        }
    }
    if list.contains(m) {
        assert(fresh.contains(m));
    }
    let st3 = previewed(st2, chat);
    crate::backend::whatsapp_message_laws::summaries_show_the_newest_message(st2, chat);
    assert(st3 == synced_conversation(st, c, chat, now));
    assert(history_of(st3, chat) == history_of(st2, chat));
    assert(history_of(st3, other) == history_of(st2, other));
    assert(history_of(st2, other) == history_of(st1, other));
}

/// Adding messages to a chat adds only those messages, and of each id that was
/// not there one.
proof fn added_messages_are_exact(st: WaV, chat: ChatIdV, msgs: Seq<MessageV>, m: MessageV)
    ensures
        history_of(with_messages(st, chat, msgs), chat).contains(m) ==> msgs.contains(m)
            || history_of(st, chat).contains(m),
        msgs.contains(m) ==> message_ids(history_of(with_messages(st, chat, msgs), chat)).contains(
            m.message_id,
        ),
        msgs.contains(m) && !message_ids(history_of(st, chat)).contains(m.message_id) && (forall|
            k: int,
        |
            0 <= k < msgs.len() && (#[trigger] msgs[k]).message_id == m.message_id ==> msgs[k] == m)
            ==> history_of(with_messages(st, chat, msgs), chat).contains(m),
    decreases msgs.len(),
{
    if msgs.len() > 0 {
        let d = msgs.drop_last();
        let x = msgs.last();
        added_messages_are_exact(st, chat, d, m);
        let st1 = with_messages(st, chat, d);
        let h1 = history_of(st1, chat);
        let h2 = history_of(with_messages(st, chat, msgs), chat);
        if !message_ids(h1).contains(x.message_id) {
            assert(h2 =~= h1.push(x));
            assert(h2.last() == x);
            assert(message_ids(h2)[h1.len() as int] == x.message_id);
        }
        if h2.contains(m) {
            let k = choose|k: int| 0 <= k < h2.len() && h2[k] == m;
            if k < h1.len() {
                assert(h1[k] == m);
                if d.contains(m) {
                    let q = choose|q: int| 0 <= q < d.len() && d[q] == m;
                    assert(msgs[q] == m);
                }
            } else {
                assert(msgs[msgs.len() - 1] == m);
            }
        }
        if msgs.contains(m) {
            let q = choose|q: int| 0 <= q < msgs.len() && msgs[q] == m;
            if q < d.len() {
                assert(d[q] == m);
                let w = choose|w: int|
                    0 <= w < message_ids(h1).len() && message_ids(h1)[w] == m.message_id;
                assert(h2[w] == h1[w]);
                assert(message_ids(h2)[w] == m.message_id);
                if h1.contains(m) {
                    let z = choose|z: int| 0 <= z < h1.len() && h1[z] == m;
                    assert(h2[z] == m);
                }
            } else if message_ids(h1).contains(m.message_id) {
                let w = choose|w: int|
                    0 <= w < message_ids(h1).len() && message_ids(h1)[w] == m.message_id;
                assert(h1.contains(h1[w]));
                added_messages_are_exact(st, chat, d, h1[w]);
                if d.contains(h1[w]) {
                    let y = choose|y: int| 0 <= y < d.len() && d[y] == h1[w];
                    assert(msgs[y] == h1[w]);
                    assert(msgs[y].message_id == m.message_id);
                } else if history_of(st, chat).contains(h1[w]) {
                    let y = choose|y: int|
                        0 <= y < history_of(st, chat).len() && history_of(st, chat)[y] == h1[w];
                    assert(message_ids(history_of(st, chat))[y] == m.message_id);
                }
            }
            if !message_ids(history_of(st, chat)).contains(m.message_id) && (forall|k: int|
                0 <= k < msgs.len() && (#[trigger] msgs[k]).message_id == m.message_id ==> msgs[k]
                    == m) {
                assert forall|k: int|
                    0 <= k < d.len() && (#[trigger] d[k]).message_id == m.message_id implies d[k]
                    == m by {
                    assert(msgs[k] == d[k]);
                }
            }
        }
    }
}

/// The push names of a report are learned but for blank ones, a later one wins,
/// and all others stay.
pub proof fn push_names_are_learned(
    m: Map<Seq<char>, Seq<char>>,
    list: Seq<WaPushname>,
    p: WaPushname,
    other: Seq<char>,
)
    ensures
        with_pushnames(m, Seq::empty()) == m,
        ({
            let before = with_pushnames(m, list);
            let after = with_pushnames(m, list.push(p));
            let told = p.id is Some && p.pushname is Some && !blank(p.pushname.unwrap()@);
            &&& told ==> after.dom().contains(p.id.unwrap()@) && after[p.id.unwrap()@]
                == p.pushname.unwrap()@
            &&& !told ==> after == before
            &&& told && other != p.id.unwrap()@ ==> (after.dom().contains(other)
                <==> before.dom().contains(other)) && (before.dom().contains(other)
                ==> after[other] == before[other])
        }),
{
    assert(list.push(p).drop_last() =~= list);
}

/// Connecting, losing the connection, pairing and the end of the offline sync
/// are reported as what they are and leave the account; only the last asks for
/// names, and it reports the whole list.
pub proof fn connection_reports_leave_the_account(st: WaV, code: String, now: int)
    ensures
        event_step(st, WaEvent::Connected, now) == (st, seq![BackendEventV::Connected], false),
        event_step(st, WaEvent::ConnectionFailure, now).0 == st,
        event_step(st, WaEvent::ConnectionFailure, now).1.len() == 1,
        event_step(st, WaEvent::ConnectionFailure, now).1[0] == BackendEventV::Disconnected(
            "WhatsApp: Connection Failure!"@,
        ),
        event_step(st, WaEvent::PairingQrCode(code), now).0 == st,
        event_step(st, WaEvent::PairingQrCode(code), now).1 == seq![BackendEventV::QrCode(code@)],
        event_step(st, WaEvent::OfflineSyncCompleted, now).0 == st,
        event_step(st, WaEvent::OfflineSyncCompleted, now).2,
        event_step(st, WaEvent::OfflineSyncCompleted, now).1 == seq![
            BackendEventV::ChatList(snapshot(st)),
        ],
        event_step(st, WaEvent::Other, now) == (st, Seq::<BackendEventV>::empty(), false),
{
}

/// A chat deleted on a linked device is reported and gone with its messages and
/// what refers to them; everything else stays. A chat without a row is not
/// reported.
pub proof fn deleted_chats_are_gone(st: WaV, jid: String, now: int, i: int, other: ChatIdV)
    requires
        is_row_of(st.chats, i, ChatIdV::WhatsApp(canonical(jid@))),
        other != ChatIdV::WhatsApp(canonical(jid@)),
    ensures
        ({
            let chat = ChatIdV::WhatsApp(canonical(jid@));
            let (st2, out, ask) = event_step(st, WaEvent::DeleteChat { jid }, now);
            &&& out == seq![BackendEventV::ChatRemoved { chat: st.chats[i] }]
            &&& !ask
            &&& st2.chats.len() == st.chats.len() - 1
            &&& forall|k: int|
                0 <= k < st2.chats.len() ==> #[trigger] st2.chats[k] == st.chats[if k < i {
                    k
                } else {
                    k + 1
                }]
            &&& history_of(st2, chat).len() == 0
            &&& !st2.previews.dom().contains(chat)
            &&& forall|k: Seq<char>|
                #[trigger] st2.stanzas.dom().contains(k) ==> st2.stanzas[k].0 != chat
            &&& history_of(st2, other) == history_of(st, other)
            &&& st.previews.dom().contains(other) ==> st2.previews.dom().contains(other)
                && st2.previews[other] == st.previews[other]
            &&& forall|k: Seq<char>|
                #[trigger] st.stanzas.dom().contains(k) && st.stanzas[k].0 != chat
                    ==> st2.stanzas.dom().contains(k) && st2.stanzas[k] == st.stanzas[k]
        }),
{
    row_found(st.chats, i, ChatIdV::WhatsApp(canonical(jid@)));
}

/// What is said of a chat that has no row changes no row and is not reported.
pub proof fn reports_on_unlisted_chats_are_passed_over(
    st: WaV,
    jid: String,
    flag: Option<bool>,
    now: int,
)
    requires
        has_no_row(st.chats, ChatIdV::WhatsApp(canonical(jid@))),
    ensures
        event_step(st, WaEvent::DeleteChat { jid }, now).1.len() == 0,
        event_step(st, WaEvent::DeleteChat { jid }, now).0.chats == st.chats,
        event_step(st, WaEvent::Mute { jid, muted: flag }, now) == (
            st,
            Seq::<BackendEventV>::empty(),
            false,
        ),
        event_step(st, WaEvent::Pin { jid, pinned: flag }, now) == (
            st,
            Seq::<BackendEventV>::empty(),
            false,
        ),
        event_step(st, WaEvent::Archive { jid, archived: flag }, now) == (
            st,
            Seq::<BackendEventV>::empty(),
            false,
        ),
        event_step(st, WaEvent::MarkChatAsRead { jid }, now) == (
            st,
            Seq::<BackendEventV>::empty(),
            false,
        ),
{
    row_missing(st.chats, ChatIdV::WhatsApp(canonical(jid@)));
}

/// Clearing a chat empties it and its summary and reports every message as
/// deleted; a chat without messages is left, and no other chat is touched.
pub proof fn cleared_chats_are_empty(st: WaV, jid: String, now: int, other: ChatIdV)
    requires
        other != ChatIdV::WhatsApp(canonical(jid@)),
    ensures
        ({
            let chat = ChatIdV::WhatsApp(canonical(jid@));
            let h = history_of(st, chat);
            let (st2, out, ask) = event_step(st, WaEvent::ClearChat { jid }, now);
            &&& !ask
            &&& h.len() == 0 ==> st2 == st && out.len() == 0
            &&& h.len() > 0 ==> out.len() == 1 && out[0] == (BackendEventV::MessageDeleted {
                chat: Some(chat),
                message_ids: h.map_values(|m: MessageV| m.message_id),
            })
            &&& history_of(st2, chat).len() == 0
            &&& h.len() > 0 && !has_no_row(st.chats, chat) ==> !st2.previews.dom().contains(chat)
            &&& history_of(st2, other) == history_of(st, other)
            &&& st2.chats == st.chats
        }),
{
    let chat = ChatIdV::WhatsApp(canonical(jid@));
    let st1 = WaV { history: st.history.insert(chat, Seq::empty()), ..st };
    crate::backend::whatsapp_message_laws::summaries_show_the_newest_message(st1, chat);
    assert(message_ids(history_of(st, chat)) == history_of(st, chat).map_values(
        |m: MessageV| m.message_id,
    ));
}

/// A message deleted on a linked device is gone from its chat and reported, and
/// no other message is; an unknown one changes nothing.
pub proof fn deleted_messages_are_gone(
    st: WaV,
    chat_jid: String,
    message_id: String,
    now: int,
    m: MessageV,
    other: ChatIdV,
)
    requires
        other != ChatIdV::WhatsApp(canonical(chat_jid@)),
    ensures
        ({
            let chat = ChatIdV::WhatsApp(canonical(chat_jid@));
            let h = history_of(st, chat);
            let e = WaEvent::DeleteMessageForMe { chat_jid, message_id };
            let (st2, out, ask) = event_step(st, e, now);
            let known = exists|k: int|
                0 <= k < h.len() && (#[trigger] h[k]).message_id == message_id@;
            &&& !ask
            &&& !known ==> st2 == st && out.len() == 0
            &&& known ==> out.len() == 1 && out[0] == (BackendEventV::MessageDeleted {
                chat: Some(chat),
                message_ids: seq![message_id@],
            })
            &&& history_of(st2, chat).contains(m) <==> h.contains(m) && m.message_id != message_id@
            &&& history_of(st2, other) == history_of(st, other)
            &&& st2.chats == st.chats
        }),
{
    let chat = ChatIdV::WhatsApp(canonical(chat_jid@));
    let h = history_of(st, chat);
    let kept = without_message(h, message_id@);
    removal_is_exact(h, message_id@, m);
    without_length(h, message_id@);
    let st1 = WaV { history: st.history.insert(chat, kept), ..st };
    crate::backend::whatsapp_message_laws::summaries_show_the_newest_message(st1, chat);
    if kept.len() == h.len() && h.contains(m) && m.message_id == message_id@ {
        let k = choose|k: int| 0 <= k < h.len() && h[k] == m;
        assert(h[k].message_id == message_id@);
    }
}

proof fn without_length(h: Seq<MessageV>, id: Seq<char>)
    ensures
        without_message(h, id).len() <= h.len(),
        without_message(h, id).len() == h.len() <==> forall|k: int|
            0 <= k < h.len() ==> (#[trigger] h[k]).message_id != id,
    decreases h.len(),
{
    if h.len() > 0 {
        let d = h.drop_last();
        without_length(d, id);
        if without_message(h, id).len() == h.len() {
            assert forall|k: int| 0 <= k < h.len() implies (#[trigger] h[k]).message_id != id by {
                if k < d.len() {
                    assert(d[k].message_id != id);
                }
            }
        }
        if forall|k: int| 0 <= k < h.len() ==> (#[trigger] h[k]).message_id != id {
            assert forall|k: int| 0 <= k < d.len() implies (#[trigger] d[k]).message_id != id by {
                assert(h[k] == d[k]);
            }
            assert(h[h.len() - 1].message_id != id);
        }
    }
}

/// Muting and archiving show in the row's status, pinning in its pin, and
/// nothing else of the row changes; the changed row is reported.
pub proof fn row_changes_are_reported(
    st: WaV,
    jid: String,
    flag: Option<bool>,
    now: int,
    i: int,
)
    requires
        is_row_of(st.chats, i, ChatIdV::WhatsApp(canonical(jid@))),
    ensures
        ({
            let old = st.chats[i];
            let on = flag == Some(true);
            let (mute, mute_out, _a) = event_step(st, WaEvent::Mute { jid, muted: flag }, now);
            let (pin, pin_out, _b) = event_step(st, WaEvent::Pin { jid, pinned: flag }, now);
            let (arch, arch_out, _c) = event_step(st, WaEvent::Archive { jid, archived: flag }, now);
            &&& mute.chats[i] == (ChatV { status: mute.chats[i].status, ..old })
            &&& on ==> mute.chats[i].status == Some("muted"@)
            &&& !on ==> mute.chats[i].status == Some(""@)
            &&& mute_out == seq![BackendEventV::ChatUpdated(mute.chats[i])]
            &&& pin.chats[i] == (ChatV { fixed: on, ..old })
            &&& pin_out == seq![BackendEventV::ChatUpdated(pin.chats[i])]
            &&& arch.chats[i] == (ChatV { status: arch.chats[i].status, ..old })
            &&& on ==> arch.chats[i].status == Some("archived"@)
            &&& !on ==> arch.chats[i].status == Some(""@)
            &&& arch_out == seq![BackendEventV::ChatUpdated(arch.chats[i])]
            &&& forall|j: int|
                0 <= j < st.chats.len() && j != i ==> #[trigger] mute.chats[j] == st.chats[j]
            &&& forall|j: int|
                0 <= j < st.chats.len() && j != i ==> #[trigger] pin.chats[j] == st.chats[j]
            &&& forall|j: int|
                0 <= j < st.chats.len() && j != i ==> #[trigger] arch.chats[j] == st.chats[j]
        }),
{
    row_found(st.chats, i, ChatIdV::WhatsApp(canonical(jid@)));
}

/// A chat read on a linked device has nothing unread left, and that is
/// reported.
pub proof fn chats_read_elsewhere_are_read(st: WaV, jid: String, now: int, i: int)
    requires
        is_row_of(st.chats, i, ChatIdV::WhatsApp(canonical(jid@))),
    ensures
        ({
            let (st2, out, ask) = event_step(st, WaEvent::MarkChatAsRead { jid }, now);
            &&& !st2.chats[i].unread
            &&& st2.chats[i].unread_count == 0
            &&& st2.chats[i] == (ChatV { unread: false, unread_count: 0, ..st.chats[i] })
            &&& out.len() == 1 && out[0] == (BackendEventV::UnreadUpdated {
                chat: ChatIdV::WhatsApp(canonical(jid@)),
                unread: false,
                unread_count: 0,
            })
            &&& forall|j: int|
                0 <= j < st.chats.len() && j != i ==> #[trigger] st2.chats[j] == st.chats[j]
            &&& st2.history == st.history
        }),
{
    row_found(st.chats, i, ChatIdV::WhatsApp(canonical(jid@)));
}

/// Presence is told as being online, else by when the peer was last seen, and
/// not at all where neither is known.
pub proof fn presence_is_told_in_words(online: bool, last_seen: Option<i64>, now: int)
    ensures
        online ==> presence_text(online, last_seen, now) == Some("online"@),
        !online && last_seen is None ==> presence_text(online, last_seen, now) is None,
        !online && last_seen is Some ==> presence_text(online, last_seen, now) == Some(
            "last seen "@ + crate::helpers::ago(now, last_seen.unwrap() as int),
        ),
{
}

/// A report of presence sets the row's status to what it says, and is passed on
/// exactly where that changes the row; a peer without a row is passed over.
pub proof fn presence_sets_the_status(
    st: WaV,
    jid: (Seq<char>, Seq<char>, Seq<char>),
    online: bool,
    last_seen: Option<i64>,
    now: int,
    i: int,
)
    requires
        peer_chat(st, jid) is Some ==> is_row_of(st.chats, i, peer_chat(st, jid).unwrap()),
    ensures
        ({
            let (st2, out) = presence_step(st, jid, online, last_seen, now);
            let told = peer_chat(st, jid) is Some;
            &&& !told ==> st2 == st && out.len() == 0
            &&& told ==> st2.chats.len() == st.chats.len() && (online ==> st2.chats[i].status
                == Some("online"@)) && (!online && last_seen is None ==> st2.chats[i].status is None)
            &&& told && st2.chats[i].status != st.chats[i].status ==> out == seq![
                BackendEventV::ChatUpdated(st2.chats[i]),
            ]
            &&& told && st2.chats[i].status == st.chats[i].status ==> out.len() == 0
            &&& told ==> st2.chats[i] == (ChatV { status: st2.chats[i].status, ..st.chats[i] })
            &&& told ==> forall|j: int|
                0 <= j < st.chats.len() && j != i ==> #[trigger] st2.chats[j] == st.chats[j]
            &&& told ==> st2.presence.dom().contains(bare(jid.0, jid.1))
                && st2.presence[bare(jid.0, jid.1)] == (online, last_seen)
        }),
{
    if peer_chat(st, jid) is Some {
        row_found(st.chats, i, peer_chat(st, jid).unwrap());
        let base = user_base_of(jid.0);
        let keys = crate::backend::whatsapp_model::presence_keys_of(jid, st.lid_pn);
        reveal_with_fuel(crate::backend::whatsapp::with_presence, 3);
        assert(keys[0] == bare(jid.0, jid.1));
        if keys.len() == 2 {
            assert(keys.drop_last().drop_last() =~= Seq::<Seq<char>>::empty());
            assert(keys.drop_last().last() == keys[0]);
        } else {
            assert(keys.drop_last() =~= Seq::<Seq<char>>::empty());
        }
    }
}

/// The row of a number that takes over the row of the same peer is unread where
/// either was, counts the larger count, and keeps its name, pin and place.
pub proof fn taken_over_rows_lose_nothing(row: ChatV, orphan: ChatV)
    ensures
        absorbed(row, orphan).unread <==> row.unread || orphan.unread,
        absorbed(row, orphan).unread_count >= row.unread_count,
        absorbed(row, orphan).unread_count >= orphan.unread_count,
        absorbed(row, orphan).unread_count == row.unread_count || absorbed(
            row,
            orphan,
        ).unread_count == orphan.unread_count,
        absorbed(row, orphan).verified <==> row.verified || orphan.verified,
        absorbed(row, orphan).id == row.id,
        absorbed(row, orphan).contact_name == row.contact_name,
        absorbed(row, orphan).fixed == row.fixed,
        absorbed(row, orphan).status == row.status,
        absorbed(row, orphan).scroll == row.scroll,
        absorbed(row, orphan).last_message_ts == row.last_message_ts,
{
}

/// Two histories joined hold every message of the first, and of the second one
/// of each id.
pub proof fn joined_histories_lose_nothing(a: Seq<MessageV>, b: Seq<MessageV>, m: MessageV)
    ensures
        a.contains(m) ==> joined_messages(a, b).contains(m),
        b.contains(m) ==> message_ids(joined_messages(a, b)).contains(m.message_id),
        joined_messages(a, b).contains(m) ==> a.contains(m) || b.contains(m),
        joined_messages(a, b).len() >= a.len(),
        joined_messages(a, b).take(a.len() as int) == a,
        b.contains(m) && !message_ids(a).contains(m.message_id) && (forall|k: int|
            0 <= k < b.len() && (#[trigger] b[k]).message_id == m.message_id ==> b[k] == m)
            ==> joined_messages(a, b).contains(m),
    decreases b.len(),
{
    if b.len() == 0 {
        assert(joined_messages(a, b).take(a.len() as int) =~= a);
    } else {
        let d = b.drop_last();
        let x = b.last();
        joined_histories_lose_nothing(a, d, m);
        let h1 = joined_messages(a, d);
        let h2 = joined_messages(a, b);
        assert(h2.take(a.len() as int) =~= h1.take(a.len() as int));
        if !message_ids(h1).contains(x.message_id) {
            assert(h2.last() == x);
            assert(h2[h1.len() as int] == x);
            assert(message_ids(h2)[h1.len() as int] == x.message_id);
        }
        if a.contains(m) {
            let z = choose|z: int| 0 <= z < h1.len() && h1[z] == m;
            assert(h2[z] == m);
        }
        if h2.contains(m) {
            let k = choose|k: int| 0 <= k < h2.len() && h2[k] == m;
            if k < h1.len() {
                assert(h1[k] == m);
                if d.contains(m) {
                    let q = choose|q: int| 0 <= q < d.len() && d[q] == m;
                    assert(b[q] == m);
                }
            } else {
                assert(b[b.len() - 1] == m);
            }
        }
        if b.contains(m) {
            let q = choose|q: int| 0 <= q < b.len() && b[q] == m;
            if q < d.len() {
                assert(d[q] == m);
                let w = choose|w: int|
                    0 <= w < message_ids(h1).len() && message_ids(h1)[w] == m.message_id;
                assert(h2[w] == h1[w]);
                assert(message_ids(h2)[w] == m.message_id);
                if h1.contains(m) {
                    let z = choose|z: int| 0 <= z < h1.len() && h1[z] == m;
                    assert(h2[z] == m);
                }
            } else if message_ids(h1).contains(m.message_id) {
                let w = choose|w: int|
                    0 <= w < message_ids(h1).len() && message_ids(h1)[w] == m.message_id;
                assert(h1.contains(h1[w]));
                joined_histories_lose_nothing(a, d, h1[w]);
                if d.contains(h1[w]) {
                    let y = choose|y: int| 0 <= y < d.len() && d[y] == h1[w];
                    assert(b[y].message_id == m.message_id);
                } else if a.contains(h1[w]) {
                    let y = choose|y: int| 0 <= y < a.len() && a[y] == h1[w];
                    assert(message_ids(a)[y] == m.message_id);
                }
            }
            if !message_ids(a).contains(m.message_id) && (forall|k: int|
                0 <= k < b.len() && (#[trigger] b[k]).message_id == m.message_id ==> b[k] == m) {
                assert forall|k: int|
                    0 <= k < d.len() && (#[trigger] d[k]).message_id == m.message_id implies d[k]
                    == m by {
                    assert(b[k] == d[k]);
                }
            }
        }
    }
}

}
