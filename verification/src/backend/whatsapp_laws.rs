//! Laws of the WhatsApp account.
use vstd::prelude::*;

use crate::backend::{ChatIdV, ChatV, MessageV};
use crate::backend::whatsapp::{
    known_presence, peer_status, presence_step, with_presence, RecentChat, WaConversation,
};
use crate::backend::whatsapp_model::{
    folded_key, history_of, is_lid, is_pn, is_self, lid_folded, listed_conversation, listed_message,
    own_chat, peer_chat, presence_keys_of, presence_text, self_named, snapshot, with_messages,
    with_recency, WaV,
};
use crate::jid::{bare, jid_of, pn_address};
use crate::order::{is_ordered, ordered, ordering_is_stable, ordering_keeps_members};
use crate::tui::chat_model::{chat_ids, distinct_ids, first_of, first_of_is_least, message_ids};

verus! {

/// The user's own chats are named so, however they were named before, and no
/// other chat is touched.
pub proof fn self_chats_are_named_myself(st: WaV, i: int)
    requires
        0 <= i < st.chats.len(),
    ensures
        self_named(st).chats.len() == st.chats.len(),
        self_named(st).chats[i].id == st.chats[i].id,
        is_self(st.chats[i].id, st.own_lid, st.own_pn) ==> self_named(st).chats[i].contact_name
            == "Myself"@ && !self_named(st).chats[i].verified,
        !is_self(st.chats[i].id, st.own_lid, st.own_pn) ==> self_named(st).chats[i] == st.chats[i],
{
}

/// Naming the user's own chats twice is naming them once.
pub proof fn self_naming_is_idempotent(st: WaV)
    ensures
        self_named(self_named(st)) == self_named(st),
{
    assert(self_named(self_named(st)).chats =~= self_named(st).chats);
}

/// Only the user's own messages are moved to another chat.
pub proof fn messages_of_others_stay(
    own_lid: Option<Seq<char>>,
    own_pn: Option<Seq<char>>,
    chat: ChatIdV,
)
    ensures
        own_chat(own_lid, own_pn, chat, false) == chat,
        own_chat(None, own_pn, chat, true) == chat,
        own_chat(own_lid, None, chat, true) == chat,
{
}

/// A conversation whose name is only its address never takes a known name away.
pub proof fn known_title_survives(st: WaV, c: WaConversation, chat: ChatIdV, i: int)
    requires
        first_of(chat_ids(st.chats), chat) == Some(i),
        !is_self(chat, st.own_lid, st.own_pn),
        crate::backend::whatsapp_model::conversation_name(
            c,
            st.pushnames,
            st.usync_names,
            st.usync_verified,
        ).0 == c.id@,
    ensures
        listed_conversation(st, c, chat).chats[i].contact_name == st.chats[i].contact_name,
{
    first_of_is_least(chat_ids(st.chats), chat);
}

/// Taking in messages loses none, changes no other chat, and keeps each message
/// of the chat once.
pub proof fn added_messages_keep_history(st: WaV, chat: ChatIdV, msgs: Seq<MessageV>)
    ensures
        history_of(st, chat).len() <= history_of(with_messages(st, chat, msgs), chat).len(),
        history_of(with_messages(st, chat, msgs), chat).take(history_of(st, chat).len() as int)
            == history_of(st, chat),
        forall|other: ChatIdV|
            other != chat ==> #[trigger] history_of(with_messages(st, chat, msgs), other)
                == history_of(st, other),
        message_ids(history_of(st, chat)).no_duplicates() ==> message_ids(
            history_of(with_messages(st, chat, msgs), chat),
        ).no_duplicates(),
    decreases msgs.len(),
{
    let h0 = history_of(st, chat);
    if msgs.len() == 0 {
        assert(h0.take(h0.len() as int) =~= h0);
    } else {
        let st1 = with_messages(st, chat, msgs.drop_last());
        added_messages_keep_history(st, chat, msgs.drop_last());
        let m = msgs.last();
        assert forall|other: ChatIdV| other != chat implies #[trigger] history_of(
            with_messages(st, chat, msgs),
            other,
        ) == history_of(st, other) by {
            assert(history_of(st1, other) == history_of(st, other));
        }
        let h1 = history_of(st1, chat);
        if !message_ids(h1).contains(m.message_id) {
            let h2 = h1.push(m);
            assert(history_of(with_messages(st, chat, msgs), chat) =~= h2);
            assert(h2.take(h0.len() as int) =~= h1.take(h0.len() as int));
            assert(message_ids(h2) =~= message_ids(h1).push(m.message_id));
            if message_ids(h0).no_duplicates() {
                assert forall|i: int, j: int|
                    0 <= i < message_ids(h2).len() && 0 <= j < message_ids(h2).len() && i != j implies message_ids(
                    h2,
                )[i] != message_ids(h2)[j] by {
                    if i < h1.len() && j < h1.len() {
                        assert(message_ids(h1)[i] != message_ids(h1)[j]);
                    } else if i < h1.len() {
                        assert(message_ids(h1)[i] != m.message_id);
                    } else {
                        assert(message_ids(h1)[j] != m.message_id);
                    }
                }
            }
        }
    }
}

/// The chat list that is shown holds exactly the account's chats, in order.
pub proof fn snapshot_shows_every_chat(st: WaV, c: ChatV)
    ensures
        snapshot(st).len() == st.chats.len(),
        snapshot(st).contains(c) <==> st.chats.contains(c),
        is_ordered::<RecentChat>(ordered::<RecentChat>(with_recency(st))),
{
    let r = with_recency(st);
    let o = ordered::<RecentChat>(r);
    ordering_is_stable::<RecentChat>(r);
    if st.chats.contains(c) {
        let k = choose|k: int| 0 <= k < st.chats.len() && st.chats[k] == c;
        assert(r[k].0 == c);
        ordering_keeps_members::<RecentChat>(r, r[k]);
        assert(r.contains(r[k]));
        let j = choose|j: int| 0 <= j < o.len() && o[j] == r[k];
        assert(snapshot(st)[j] == c);
    }
    if snapshot(st).contains(c) {
        let j = choose|j: int| 0 <= j < snapshot(st).len() && snapshot(st)[j] == c;
        assert(o[j].0 == c);
        ordering_keeps_members::<RecentChat>(r, o[j]);
        assert(o.contains(o[j]));
        let k = choose|k: int| 0 <= k < r.len() && r[k] == o[j];
        assert(st.chats[k] == c);
    }
}

/// In the list that is shown no chat that is not pinned comes before a pinned
/// one.
pub proof fn pinned_chats_come_first(st: WaV, i: int, j: int)
    requires
        0 <= i < j < snapshot(st).len(),
        snapshot(st)[j].fixed,
    ensures
        snapshot(st)[i].fixed,
{
    let o = ordered::<RecentChat>(with_recency(st));
    ordering_is_stable::<RecentChat>(with_recency(st));
    assert(<RecentChat as crate::order::Ranked>::rank_of(o[i])
        <= <RecentChat as crate::order::Ranked>::rank_of(o[j]));
}

/// Folding the row of an opaque identity leaves its peer with one row: the
/// folded row is gone, the row of the phone number is there, every other chat
/// stays, and no chat is there twice.
pub proof fn folded_peer_has_one_row(
    st: WaV,
    base: Seq<char>,
    found: Map<Seq<char>, Seq<char>>,
    id: ChatIdV,
)
    requires
        distinct_ids(st.chats),
        lid_folded(st, base, found).1 is Some,
        lid_folded(st, base, found).1.unwrap().0.id != lid_folded(st, base, found).1.unwrap().1,
    ensures
        distinct_ids(lid_folded(st, base, found).0.chats),
        chat_ids(lid_folded(st, base, found).0.chats).contains(id) <==> chat_ids(
            st.chats,
        ).contains(id) && id != lid_folded(st, base, found).1.unwrap().0.id,
{
    let (st2, gone) = lid_folded(st, base, found);
    let jid = jid_of(base + "@lid"@).unwrap();
    let lid_chat = ChatIdV::WhatsApp(bare(jid.0, jid.1));
    let pn_chat = ChatIdV::WhatsApp(pn_address(found[base]));
    first_of_is_least(chat_ids(st.chats), lid_chat);
    let i = first_of(chat_ids(st.chats), lid_chat).unwrap();
    let rest = st.chats.remove(i);
    assert(chat_ids(rest) =~= chat_ids(st.chats).remove(i));
    first_of_is_least(chat_ids(rest), pn_chat);
    assert(chat_ids(st2.chats) =~= chat_ids(rest));
    assert(st.chats[i].id == lid_chat) by {
        assert(chat_ids(st.chats)[i] == lid_chat);
    }
    let f = chat_ids(st2.chats);
    let e = chat_ids(st.chats);
    assert forall|a: int, b: int| 0 <= a < b < st2.chats.len() implies (
    #[trigger] st2.chats[a]).id != (#[trigger] st2.chats[b]).id by {
        let a2 = if a < i { a } else { a + 1 };
        let b2 = if b < i { b } else { b + 1 };
        assert(f[a] == e[a2] && f[b] == e[b2]);
        assert(st.chats[a2].id != st.chats[b2].id);
        assert(f[a] == st2.chats[a].id && f[b] == st2.chats[b].id);
    }
    if f.contains(id) {
        let a = choose|a: int| 0 <= a < f.len() && f[a] == id;
        let a2 = if a < i { a } else { a + 1 };
        assert(f[a] == e[a2]);
        assert(e[a2] == id);
        if a2 < i {
            assert(st.chats[a2].id != st.chats[i].id);
        } else {
            assert(st.chats[i].id != st.chats[a2].id);
        }
    }
    if e.contains(id) && id != lid_chat {
        let a2 = choose|a2: int| 0 <= a2 < e.len() && e[a2] == id;
        let a = if a2 < i { a2 } else { a2 - 1 };
        assert(f[a] == e[a2]);
    }
}

proof fn presence_is_kept(
    m: Map<Seq<char>, (bool, Option<i64>)>,
    keys: Seq<Seq<char>>,
    online: bool,
    last_seen: Option<i64>,
)
    ensures
        forall|i: int|
            0 <= i < keys.len() ==> with_presence(m, keys, online, last_seen).dom().contains(
                #[trigger] keys[i],
            ) && with_presence(m, keys, online, last_seen)[keys[i]] == (online, last_seen),
    decreases keys.len(),
{
    if keys.len() > 0 {
        let d = keys.drop_last();
        presence_is_kept(m, d, online, last_seen);
        assert forall|i: int| 0 <= i < keys.len() implies with_presence(
            m,
            keys,
            online,
            last_seen,
        ).dom().contains(#[trigger] keys[i]) && with_presence(m, keys, online, last_seen)[keys[i]]
            == (online, last_seen) by {
            if i < d.len() {
                assert(d[i] == keys[i]);
            }
        }
    }
}

proof fn chats_with_same_ids(st: WaV, st2: WaV, key: Seq<char>)
    requires
        chat_ids(st.chats) == chat_ids(st2.chats),
        st.lid_pn == st2.lid_pn,
    ensures
        folded_key(key, st) == folded_key(key, st2),
{
}

/// What is reported of a peer's presence is what its status then says.
pub proof fn reported_presence_is_the_status(
    st: WaV,
    jid: (Seq<char>, Seq<char>, Seq<char>),
    online: bool,
    last_seen: Option<i64>,
    now: int,
)
    requires
        is_pn(jid) || is_lid(jid),
        peer_chat(st, jid) is Some,
    ensures
        peer_status(presence_step(st, jid, online, last_seen, now).0, jid, now) == presence_text(
            online,
            last_seen,
            now,
        ),
{
    let st2 = presence_step(st, jid, online, last_seen, now).0;
    let keys = presence_keys_of(jid, st.lid_pn);
    presence_is_kept(st.presence, keys, online, last_seen);
    let chat = peer_chat(st, jid).unwrap();
    first_of_is_least(chat_ids(st.chats), chat);
    assert(chat_ids(st2.chats) =~= chat_ids(st.chats));
    chats_with_same_ids(st, st2, bare(jid.0, jid.1));
    assert(keys.len() > 0);
    assert(st2.presence.dom().contains(keys[0]));
    assert(known_presence(st2.presence, keys) == Some((online, last_seen)));
}

/// An address that is not an opaque identity always stands for itself.
pub proof fn plain_addresses_are_not_folded(key: Seq<char>, st: WaV)
    requires
        jid_of(key) is None || !is_lid(jid_of(key).unwrap()),
    ensures
        folded_key(key, st) == ChatIdV::WhatsApp(key),
{
}

/// A message of someone else makes its chat unread; one of the user does not.
pub proof fn incoming_messages_are_unread(st: WaV, chat: ChatIdV, m: MessageV)
    ensures
        chat_ids(listed_message(st, chat, m).chats).contains(chat),
        forall|i: int|
            first_of(chat_ids(st.chats), chat) == Some(i) ==> listed_message(
                st,
                chat,
                m,
            ).chats[i].unread == (st.chats[i].unread || !m.from_me),
{
    let st2 = listed_message(st, chat, m);
    first_of_is_least(chat_ids(st.chats), chat);
    match first_of(chat_ids(st.chats), chat) {
        Some(i) => {
            assert(chat_ids(st2.chats) =~= chat_ids(st.chats));
            assert(chat_ids(st2.chats)[i] == chat);
        },
        None => {
            assert(chat_ids(st2.chats)[st.chats.len() as int] == chat);
        },
    }
}

}
