//! Laws of the peers of a WhatsApp account: one row for each, their names, and
//! what the user sends them.
use vstd::prelude::*;

use crate::backend::{BackendEventV, ChatIdV, ChatV, Message, MessageAction, MessageV};
use crate::backend::whatsapp::{
    empty_account, newest_incoming, peer_status, read_rows, receipt_author, sent_message, with_sent,
    RecentChat, UsyncResult,
};
use crate::backend::whatsapp_message_laws::{has_no_row, is_row_of};
use crate::backend::whatsapp_model::{
    directory_name, fold_events, folded_key, history_of, joined_messages, learned, lid_folded,
    lids_of, name_candidates, newest, peer_chat, presence_keys_of, pretty_number, rows_of_chats,
    snapshot, with_directory_name, with_identity, with_recency, WaV,
};
use crate::jid::{bare, jid_of, pn_address, user_base_of};
use crate::order::{ordered, ordering_is_stable, ordering_keeps_members, Ranked};
use crate::text::blank;
use crate::tui::chat_model::{chat_ids, first_of, first_of_at, first_of_is_least, first_of_none};

verus! {

proof fn row_found(chats: Seq<ChatV>, i: int, chat: ChatIdV)
    requires
        is_row_of(chats, i, chat),
    ensures
        first_of(chat_ids(chats), chat) == Some(i),
        chat_ids(chats).contains(chat),
{
    let ids = chat_ids(chats);
    assert(ids[i] == chats[i].id);
    assert forall|k: int| 0 <= k < i implies ids[k] != chat by {
        assert(ids[k] == chats[k].id);
    }
    first_of_at(ids, chat, i);
}

proof fn row_missing(chats: Seq<ChatV>, chat: ChatIdV)
    requires
        has_no_row(chats, chat),
    ensures
        first_of(chat_ids(chats), chat) is None,
        !chat_ids(chats).contains(chat),
{
    let ids = chat_ids(chats);
    assert forall|k: int| 0 <= k < ids.len() implies ids[k] != chat by {
        assert(ids[k] == chats[k].id);
    }
    first_of_none(ids, chat);
}

/// An address stands for the chat of a number exactly where it is an opaque
/// identity whose number is known and has a row; else it stands for itself.
pub proof fn opaque_identities_stand_for_their_number(key: Seq<char>, st: WaV)
    ensures
        ({
            let jid = jid_of(key).unwrap();
            let base = user_base_of(jid.0);
            let known = jid_of(key) is Some && jid.1 == "lid"@ && st.lid_pn.dom().contains(base);
            let number = ChatIdV::WhatsApp(pn_address(st.lid_pn[base]));
            &&& known && !has_no_row(st.chats, number) ==> folded_key(key, st) == number
            &&& !known || has_no_row(st.chats, number) ==> folded_key(key, st)
                == ChatIdV::WhatsApp(key)
        }),
{
    let jid = jid_of(key).unwrap();
    let number = ChatIdV::WhatsApp(pn_address(st.lid_pn[user_base_of(jid.0)]));
    if has_no_row(st.chats, number) {
        row_missing(st.chats, number);
    } else {
        let k = choose|k: int| 0 <= k < st.chats.len() && (#[trigger] st.chats[k]).id == number;
        assert(chat_ids(st.chats)[k] == number);
    }
}

/// The number of an opaque identity is learned once: what is known stays, and
/// nothing is learned of other addresses or of what the lookup does not know.
pub proof fn numbers_are_learned_once(
    st: WaV,
    jid: (Seq<char>, Seq<char>, Seq<char>),
    found: Map<Seq<char>, Seq<char>>,
    other: Seq<char>,
)
    ensures
        ({
            let base = user_base_of(jid.0);
            let st2 = learned(st, jid, found);
            &&& jid.1 != "lid"@ ==> st2 == st
            &&& st.lid_pn.dom().contains(base) ==> st2 == st
            &&& !found.dom().contains(base) ==> st2 == st
            &&& jid.1 == "lid"@ && !st.lid_pn.dom().contains(base) && found.dom().contains(base)
                ==> st2.lid_pn.dom().contains(base) && st2.lid_pn[base] == found[base]
            &&& other != base ==> (st2.lid_pn.dom().contains(other)
                <==> st.lid_pn.dom().contains(other))
            &&& st2.chats == st.chats
            &&& st2.history == st.history
        }),
{
}

/// Folding the row of an opaque identity whose number has a row: the row goes,
/// its messages join those of the number in time order, its summary moves where
/// the number has none, and what referred to it is dropped.
pub proof fn folded_rows_move_to_their_number(
    st: WaV,
    base: Seq<char>,
    found: Map<Seq<char>, Seq<char>>,
    i: int,
    m: MessageV,
    other: ChatIdV,
)
    requires
        jid_of(base + "@lid"@) is Some,
        found.dom().contains(base),
        ({
            let jid = jid_of(base + "@lid"@).unwrap();
            let from = ChatIdV::WhatsApp(bare(jid.0, jid.1));
            let to = ChatIdV::WhatsApp(pn_address(found[base]));
            &&& from != to
            &&& is_row_of(st.chats, i, from)
            &&& !has_no_row(st.chats, to)
            &&& other != from
            &&& other != to
        }),
    ensures
        ({
            let jid = jid_of(base + "@lid"@).unwrap();
            let from = ChatIdV::WhatsApp(bare(jid.0, jid.1));
            let to = ChatIdV::WhatsApp(pn_address(found[base]));
            let (st2, gone) = lid_folded(st, base, found);
            &&& gone == Some((st.chats[i], to))
            &&& st2.chats.len() == st.chats.len() - 1
            &&& history_of(st2, from).len() == 0
            &&& history_of(st2, other) == history_of(st, other)
            &&& history_of(st, to).contains(m) ==> history_of(st2, to).contains(m)
            &&& history_of(st, from).contains(m) ==> exists|k: int|
                0 <= k < history_of(st2, to).len() && (#[trigger] history_of(
                    st2,
                    to,
                )[k]).message_id == m.message_id
            &&& history_of(st2, to).contains(m) ==> history_of(st, to).contains(m) || history_of(
                st,
                from,
            ).contains(m)
            &&& !st2.previews.dom().contains(from)
            &&& st.previews.dom().contains(to) ==> st2.previews[to] == st.previews[to]
            &&& !st.previews.dom().contains(to) && st.previews.dom().contains(from)
                ==> st2.previews.dom().contains(to) && st2.previews[to] == st.previews[from]
            &&& st2.lid_pn.dom().contains(base) && st2.lid_pn[base] == found[base]
            &&& forall|k: Seq<char>|
                #[trigger] st2.stanzas.dom().contains(k) ==> st2.stanzas[k].0 != from
        }),
{
    let jid = jid_of(base + "@lid"@).unwrap();
    let from = ChatIdV::WhatsApp(bare(jid.0, jid.1));
    let to = ChatIdV::WhatsApp(pn_address(found[base]));
    row_found(st.chats, i, from);
    let k = choose|k: int| 0 <= k < st.chats.len() && (#[trigger] st.chats[k]).id == to;
    assert(chat_ids(st.chats)[k] == to);
    let (st2, gone) = lid_folded(st, base, found);
    first_of_is_least(chat_ids(st.chats.remove(i)), to);
    let a = history_of(st, to);
    let b = history_of(st, from);
    if st.history.dom().contains(from) {
        let j = joined_messages(a, b);
        assert(history_of(st2, to) == ordered::<Message>(j));
        crate::backend::whatsapp_sync_laws::joined_histories_lose_nothing(a, b, m);
        ordering_keeps_members::<Message>(j, m);
        ordering_is_stable::<Message>(j);
        if b.contains(m) {
            let ids = crate::tui::chat_model::message_ids(j);
            let q = choose|q: int| 0 <= q < ids.len() && ids[q] == m.message_id;
            ordering_keeps_members::<Message>(j, j[q]);
            assert(j.contains(j[q]));
            let o = ordered::<Message>(j);
            let z = choose|z: int| 0 <= z < o.len() && o[z] == j[q];
            assert(history_of(st2, to)[z].message_id == m.message_id);
        }
    } else {
        assert(history_of(st2, to) == a);
    }
}

/// A row that cannot be folded stays: where the identity is not an address, its
/// number is not known, or either has no row.
pub proof fn rows_without_a_number_stay(
    st: WaV,
    base: Seq<char>,
    found: Map<Seq<char>, Seq<char>>,
)
    ensures
        ({
            let jid = jid_of(base + "@lid"@).unwrap();
            let from = ChatIdV::WhatsApp(bare(jid.0, jid.1));
            let to = ChatIdV::WhatsApp(pn_address(found[base]));
            let (st2, gone) = lid_folded(st, base, found);
            &&& jid_of(base + "@lid"@) is None || !found.dom().contains(base) ==> st2 == st
                && gone is None
            &&& jid_of(base + "@lid"@) is Some && found.dom().contains(base) && (has_no_row(
                st.chats,
                from,
            ) || has_no_row(st.chats, to)) ==> gone is None && st2.chats == st.chats
                && st2.history == st.history
        }),
{
    let jid = jid_of(base + "@lid"@).unwrap();
    let from = ChatIdV::WhatsApp(bare(jid.0, jid.1));
    let to = ChatIdV::WhatsApp(pn_address(found[base]));
    if has_no_row(st.chats, from) {
        row_missing(st.chats, from);
    }
    if has_no_row(st.chats, to) {
        row_missing(st.chats, to);
    }
}

/// After rows were folded each row that went is reported as removed, first and
/// in order; last come the whole list and a word of it. Nothing is reported
/// where none went.
pub proof fn folding_is_reported(st: WaV, gone: Seq<(ChatV, ChatIdV)>, i: int)
    requires
        0 <= i < gone.len(),
    ensures
        fold_events(st, Seq::empty()).len() == 0,
        fold_events(st, gone).len() >= gone.len() + 2,
        fold_events(st, gone)[i] == (BackendEventV::ChatRemoved { chat: gone[i].0 }),
        fold_events(st, gone)[fold_events(st, gone).len() - 2] == BackendEventV::ChatList(
            snapshot(st),
        ),
        fold_events(st, gone)[fold_events(st, gone).len() - 1] == BackendEventV::Status(
            "merged duplicate chats"@,
        ),
        forall|k: int|
            gone.len() <= k < fold_events(st, gone).len() - 2 ==> #[trigger] fold_events(
                st,
                gone,
            )[k] is ChatUpdated,
{
}

/// Every chat that took a row over and has a row is reported as it now stands.
pub proof fn taken_over_chats_are_reported(
    chats: Seq<ChatV>,
    gone: Seq<(ChatV, ChatIdV)>,
    i: int,
    k: int,
)
    requires
        0 <= k < gone.len(),
        is_row_of(chats, i, gone[k].1),
    ensures
        rows_of_chats(chats, gone).contains(chats[i]),
    decreases gone.len(),
{
    let d = gone.drop_last();
    if k < d.len() {
        assert(d[k] == gone[k]);
        taken_over_chats_are_reported(chats, d, i, k);
        let r = rows_of_chats(chats, d);
        let z = choose|z: int| 0 <= z < r.len() && r[z] == chats[i];
        assert(rows_of_chats(chats, gone)[z] == chats[i]);
    } else {
        row_found(chats, i, gone[k].1);
        let q = rows_of_chats(chats, gone);
        assert(q[q.len() - 1] == chats[i]);
    }
}

/// In the list that is shown, of two chats that are both pinned or both not the
/// one with the newer message comes first.
pub proof fn shown_chats_are_recent_first(st: WaV, i: int, j: int)
    requires
        0 <= i < j < snapshot(st).len(),
        snapshot(st)[i].fixed == snapshot(st)[j].fixed,
        newest(history_of(st, snapshot(st)[j].id)) is Some,
        newest(history_of(st, snapshot(st)[j].id)).unwrap().timestamp > 0,
    ensures
        newest(history_of(st, snapshot(st)[i].id)) is Some,
        newest(history_of(st, snapshot(st)[i].id)).unwrap().timestamp >= newest(
            history_of(st, snapshot(st)[j].id),
        ).unwrap().timestamp,
{
    let r = with_recency(st);
    let o = ordered::<RecentChat>(r);
    ordering_is_stable::<RecentChat>(r);
    assert(RecentChat::rank_of(o[i]) <= RecentChat::rank_of(o[j]));
    ordering_keeps_members::<RecentChat>(r, o[i]);
    ordering_keeps_members::<RecentChat>(r, o[j]);
    assert(o.contains(o[i]) && o.contains(o[j]));
    let a = choose|a: int| 0 <= a < r.len() && r[a] == o[i];
    let b = choose|b: int| 0 <= b < r.len() && r[b] == o[j];
    assert(st.chats[a] == snapshot(st)[i]);
    assert(st.chats[b] == snapshot(st)[j]);
}

/// The peers to look up are those with a one-to-one chat that were neither named
/// nor asked about; not the user, and each once.
pub proof fn only_unnamed_peers_are_looked_up(
    st: WaV,
    chats: Seq<ChatV>,
    own: Seq<Seq<char>>,
    c: ChatV,
)
    ensures
        name_candidates(st, Seq::empty(), own).1.len() == 0,
        ({
            let (met, out) = name_candidates(st, chats, own);
            let all = name_candidates(st, chats.push(c), own).1;
            let asks = (c.id matches ChatIdV::WhatsApp(raw) && jid_of(raw) is Some && (jid_of(
                raw,
            ).unwrap().1 == "s.whatsapp.net"@ || jid_of(raw).unwrap().1 == "lid"@)
                && !own.contains(bare(jid_of(raw).unwrap().0, jid_of(raw).unwrap().1))
                && !st.usync_names.dom().contains(raw) && !st.usync_attempted.dom().contains(raw)
                && !met.contains(bare(jid_of(raw).unwrap().0, jid_of(raw).unwrap().1)));
            &&& asks ==> (c.id matches ChatIdV::WhatsApp(raw) && all == out.push(
                jid_of(raw).unwrap(),
            ))
            &&& !asks ==> all == out
        }),
{
    assert(chats.push(c).drop_last() =~= chats);
}

/// A peer is called by the name of the profile, else by the verified name, else
/// by the number behind an opaque identity; blank names are none.
pub proof fn the_directory_names_peers(
    r: UsyncResult,
    found: Map<Seq<char>, Seq<char>>,
    pushnames: Map<Seq<char>, Seq<char>>,
)
    ensures
        ({
            let name = directory_name(r, found, pushnames);
            let profile = r.username is Some && !blank(r.username.unwrap()@);
            let verified = (r.verified_name matches Some(Some(v)) && !blank(v@));
            let lid = r.jid.server@ == "lid"@;
            let base = user_base_of(r.jid.user@);
            &&& profile ==> name == Some(r.username.unwrap()@)
            &&& !profile && verified ==> (r.verified_name matches Some(Some(v)) && name == Some(v@))
            &&& !profile && !verified && !lid ==> name is None
            &&& !profile && !verified && lid && r.pn_jid is None && !found.dom().contains(base)
                ==> name is None
            &&& name is Some ==> !blank(name.unwrap())
            &&& !profile && !verified && lid && r.pn_jid is Some && !blank(
                pretty_number(user_base_of(r.pn_jid.unwrap().user@)),
            ) ==> name == Some(pretty_number(user_base_of(r.pn_jid.unwrap().user@)))
        }),
{
}

/// An answer of the directory names the peer's row, under either address, and
/// marks it as a business exactly where the directory says so; without a name it
/// changes no row. Either way the peer is not asked about again.
pub proof fn answers_name_the_row(
    st: WaV,
    r: UsyncResult,
    found: Map<Seq<char>, Seq<char>>,
    pushnames: Map<Seq<char>, Seq<char>>,
    i: int,
)
    requires
        is_row_of(st.chats, i, ChatIdV::WhatsApp(bare(r.jid.user@, r.jid.server@))),
    ensures
        ({
            let st2 = with_directory_name(st, r, found, pushnames);
            let name = directory_name(r, found, pushnames);
            let asked = bare(r.jid.user@, r.jid.server@);
            &&& st2.usync_attempted.dom().contains(asked)
            &&& name is None ==> st2.chats == st.chats && st2.usync_names == st.usync_names
            &&& name is Some ==> st2.chats.len() == st.chats.len() && st2.chats[i].contact_name
                == name.unwrap() && (st2.chats[i].verified <==> r.is_business
                && r.verified_name is Some) && st2.usync_names.dom().contains(asked)
                && st2.usync_names[asked] == name.unwrap()
            &&& st2.chats[i].unread == st.chats[i].unread
            &&& st2.chats[i].unread_count == st.chats[i].unread_count
            &&& st2.chats[i].fixed == st.chats[i].fixed
            &&& st2.chats[i].id == st.chats[i].id
            &&& st2.history == st.history
        }),
{
    row_found(st.chats, i, ChatIdV::WhatsApp(bare(r.jid.user@, r.jid.server@)));
    let st2 = with_directory_name(st, r, found, pushnames);
    let name = directory_name(r, found, pushnames);
    if name is Some && r.pn_jid is Some {
        let key = ChatIdV::WhatsApp(bare(r.pn_jid.unwrap().user@, r.pn_jid.unwrap().server@));
        let business = r.is_business && r.verified_name is Some;
        let mid = st.chats.update(
            i,
            ChatV { contact_name: name.unwrap(), verified: business, ..st.chats[i] },
        );
        first_of_is_least(chat_ids(mid), key);
    }
}

/// A receipt is for the newest message that someone else wrote, of several at
/// one time for the last; where no one else wrote there is none.
pub proof fn receipts_are_for_the_newest_incoming(msgs: Seq<MessageV>)
    ensures
        newest_incoming(msgs) is None <==> forall|k: int|
            0 <= k < msgs.len() ==> (#[trigger] msgs[k]).from_me,
        newest_incoming(msgs) is Some ==> exists|i: int|
            0 <= i < msgs.len() && newest_incoming(msgs) == Some(#[trigger] msgs[i])
                && !msgs[i].from_me && (forall|j: int|
                0 <= j < msgs.len() && !(#[trigger] msgs[j]).from_me ==> msgs[j].timestamp
                    <= msgs[i].timestamp) && (forall|j: int|
                i < j < msgs.len() && !(#[trigger] msgs[j]).from_me ==> msgs[j].timestamp
                    < msgs[i].timestamp),
    decreases msgs.len(),
{
    if msgs.len() > 0 {
        let d = msgs.drop_last();
        receipts_are_for_the_newest_incoming(d);
        let n = msgs.len() - 1;
        assert(msgs.last() == msgs[n]);
        assert forall|k: int| 0 <= k < d.len() implies d[k] == #[trigger] msgs[k] by {}
        if newest_incoming(d) is None {
            assert forall|k: int| 0 <= k < d.len() implies (#[trigger] msgs[k]).from_me by {
                assert(d[k].from_me);
            }
        } else {
            let i = choose|i: int|
                0 <= i < d.len() && newest_incoming(d) == Some(#[trigger] d[i]) && !d[i].from_me
                    && (forall|j: int|
                    0 <= j < d.len() && !(#[trigger] d[j]).from_me ==> d[j].timestamp
                        <= d[i].timestamp) && (forall|j: int|
                    i < j < d.len() && !(#[trigger] d[j]).from_me ==> d[j].timestamp
                        < d[i].timestamp);
            assert(!msgs[i].from_me);
            assert forall|j: int| 0 <= j < d.len() && !(#[trigger] msgs[j]).from_me implies msgs[j].timestamp
                <= msgs[i].timestamp by {
                assert(d[j] == msgs[j]);
            }
            assert forall|j: int| i < j < d.len() && !(#[trigger] msgs[j]).from_me implies msgs[j].timestamp
                < msgs[i].timestamp by {
                assert(d[j] == msgs[j]);
            }
        }
    }
}

/// A receipt names the author in a group alone, as far as the address can be
/// read.
pub proof fn receipts_name_authors_in_groups(group: bool, m: MessageV)
    ensures
        !group ==> receipt_author(group, m) is None,
        m.author_id is None ==> receipt_author(group, m) is None,
        group && m.author_id is Some ==> receipt_author(group, m) == jid_of(m.author_id.unwrap()),
{
}

/// Reading a chat leaves nothing unread in the rows of both its ids and touches
/// no other row.
pub proof fn reading_clears_the_rows(chats: Seq<ChatV>, a: ChatIdV, b: ChatIdV, i: int)
    requires
        0 <= i < chats.len(),
    ensures
        read_rows(chats, a, b).len() == chats.len(),
        chats[i].id == a || chats[i].id == b ==> !read_rows(chats, a, b)[i].unread && read_rows(
            chats,
            a,
            b,
        )[i].unread_count == 0,
        chats[i].id == a || chats[i].id == b ==> read_rows(chats, a, b)[i] == (ChatV {
            unread: false,
            unread_count: 0,
            ..chats[i]
        }),
        chats[i].id != a && chats[i].id != b ==> read_rows(chats, a, b)[i] == chats[i],
{
}

/// A sent message is the user's, says what they wrote, and answers what they
/// chose.
pub proof fn sent_messages_are_the_users(
    chat: ChatIdV,
    id: Seq<char>,
    text: Seq<char>,
    reply_to: Option<Seq<char>>,
    at: i64,
)
    ensures
        sent_message(chat, id, text, reply_to, at).from_me,
        sent_message(chat, id, text, reply_to, at).sender == "You"@,
        sent_message(chat, id, text, reply_to, at).text == text,
        sent_message(chat, id, text, reply_to, at).chat == chat,
        sent_message(chat, id, text, reply_to, at).message_id == id,
        sent_message(chat, id, text, reply_to, at).timestamp == at,
        sent_message(chat, id, text, reply_to, at).reply_to_id == reply_to,
        sent_message(chat, id, text, reply_to, at).media is None,
        !sent_message(chat, id, text, reply_to, at).pending,
        !sent_message(chat, id, text, reply_to, at).failed,
        sent_message(chat, id, text, reply_to, at).msg_actions.len() == 3,
        sent_message(chat, id, text, reply_to, at).msg_actions[2] == MessageAction::Delete,
{
}

/// Sending files the message once at the end of its chat, sums the chat up with
/// it, and leaves nothing unread there; no other chat is touched.
pub proof fn sending_files_the_message(st: WaV, chat: ChatIdV, m: MessageV, i: int, other: ChatIdV)
    requires
        0 <= i < st.chats.len(),
        other != chat,
    ensures
        ({
            let st2 = with_sent(st, chat, m);
            let h = history_of(st, chat);
            let known = exists|k: int|
                0 <= k < h.len() && (#[trigger] h[k]).message_id == m.message_id;
            &&& !known ==> history_of(st2, chat) == h.push(m)
            &&& known ==> history_of(st2, chat) == h
            &&& history_of(st2, other) == history_of(st, other)
            &&& st2.stanzas.dom().contains(m.message_id) && st2.stanzas[m.message_id] == (
                chat,
                m.message_id,
            )
            &&& st2.chats.len() == st.chats.len()
            &&& st.chats[i].id == chat ==> !st2.chats[i].unread && st2.chats[i].unread_count == 0
                && st2.chats[i].contact_name == st.chats[i].contact_name
            &&& st.chats[i].id != chat ==> st2.chats[i] == st.chats[i]
            &&& st.chats[i].id == chat ==> st2.previews.dom().contains(chat) && st2.previews[chat]
                == "You: "@ + m.text
        }),
{
    let h = history_of(st, chat);
    let ids = crate::tui::chat_model::message_ids(h);
    if exists|k: int| 0 <= k < h.len() && (#[trigger] h[k]).message_id == m.message_id {
        let k = choose|k: int| 0 <= k < h.len() && (#[trigger] h[k]).message_id == m.message_id;
        assert(ids[k] == m.message_id);
    } else if ids.contains(m.message_id) {
        let k = choose|k: int| 0 <= k < ids.len() && ids[k] == m.message_id;
        assert(h[k].message_id == m.message_id);
    }
    if st.chats[i].id == chat {
        assert(chat_ids(st.chats)[i] == chat);
    }
}

/// The account knows its addresses after it was told them, and names its own
/// chats so.
pub proof fn accounts_know_themselves(
    st: WaV,
    lid: Option<Seq<char>>,
    pn: Option<Seq<char>>,
    i: int,
)
    requires
        0 <= i < st.chats.len(),
    ensures
        with_identity(st, lid, pn).own_lid == lid,
        with_identity(st, lid, pn).own_pn == pn,
        with_identity(st, lid, pn).history == st.history,
        (st.chats[i].id matches ChatIdV::WhatsApp(raw) ==> (lid == Some(raw) || pn == Some(raw))
            ==> with_identity(st, lid, pn).chats[i].contact_name == "Myself"@ && !with_identity(
            st,
            lid,
            pn,
        ).chats[i].verified),
        (st.chats[i].id matches ChatIdV::WhatsApp(raw) ==> lid != Some(raw) && pn != Some(raw)
            ==> with_identity(st, lid, pn).chats[i] == st.chats[i]),
        with_identity(st, lid, pn).chats[i].unread_count == st.chats[i].unread_count,
{
}

/// The status of a peer is that of a person with a row of whom presence is
/// known; of any other there is none.
pub proof fn only_known_peers_have_a_status(
    st: WaV,
    jid: (Seq<char>, Seq<char>, Seq<char>),
    now: int,
)
    ensures
        jid.1 != "s.whatsapp.net"@ && jid.1 != "lid"@ ==> peer_status(st, jid, now) is None,
        peer_chat(st, jid) is None ==> peer_status(st, jid, now) is None,
        st.presence.dom().contains(bare(jid.0, jid.1)) && peer_chat(st, jid) is Some && (jid.1
            == "s.whatsapp.net"@ || jid.1 == "lid"@) ==> ({
            let (online, seen) = st.presence[bare(jid.0, jid.1)];
            &&& online ==> peer_status(st, jid, now) == Some("online"@)
            &&& !online && seen is None ==> peer_status(st, jid, now) is None
            &&& !online && seen is Some ==> peer_status(st, jid, now) == Some(
                "last seen "@ + crate::helpers::ago(now, seen.unwrap() as int),
            )
        }),
{
    let keys = crate::backend::whatsapp_model::presence_keys_of(jid, st.lid_pn);
    assert(keys[0] == bare(jid.0, jid.1));
}

/// A new account is switched off, and nothing is known of it.
pub proof fn new_accounts_are_empty(id: ChatIdV, key: Seq<char>)
    ensures
        !empty_account().enabled,
        empty_account().chats.len() == 0,
        !empty_account().history.dom().contains(id),
        !empty_account().previews.dom().contains(id),
        !empty_account().stanzas.dom().contains(key),
        !empty_account().pushnames.dom().contains(key),
        !empty_account().lid_pn.dom().contains(key),
        !empty_account().presence.dom().contains(key),
        empty_account().sync_seen_at is None,
        empty_account().own_lid is None && empty_account().own_pn is None,
{
}

/// A peer's chat is the one under its folded address, exactly where that has a
/// row.
pub proof fn peers_have_a_chat_where_they_have_a_row(
    st: WaV,
    jid: (Seq<char>, Seq<char>, Seq<char>),
)
    ensures
        peer_chat(st, jid) is Some <==> exists|k: int|
            0 <= k < st.chats.len() && (#[trigger] st.chats[k]).id == folded_key(
                bare(jid.0, jid.1),
                st,
            ),
        peer_chat(st, jid) is Some ==> peer_chat(st, jid) == Some(
            folded_key(bare(jid.0, jid.1), st),
        ),
{
    let ids = chat_ids(st.chats);
    let chat = folded_key(bare(jid.0, jid.1), st);
    if ids.contains(chat) {
        let k = choose|k: int| 0 <= k < ids.len() && ids[k] == chat;
        assert(st.chats[k].id == chat);
    }
    if exists|k: int| 0 <= k < st.chats.len() && (#[trigger] st.chats[k]).id == chat {
        let k = choose|k: int| 0 <= k < st.chats.len() && (#[trigger] st.chats[k]).id == chat;
        assert(ids[k] == chat);
    }
}

/// Whether a row stands under an opaque identity with the given base.
pub open spec fn is_opaque_row(c: ChatV, base: Seq<char>) -> bool {
    &&& c.id is WhatsApp
    &&& jid_of(c.id->WhatsApp_0) is Some
    &&& jid_of(c.id->WhatsApp_0).unwrap().1 == "lid"@
    &&& user_base_of(jid_of(c.id->WhatsApp_0).unwrap().0) == base
}

/// The rows to fold are exactly those under an opaque identity.
pub proof fn opaque_rows_are_found(chats: Seq<ChatV>, base: Seq<char>)
    ensures
        lids_of(chats).contains(base) <==> exists|k: int|
            0 <= k < chats.len() && is_opaque_row(#[trigger] chats[k], base),
    decreases chats.len(),
{
    if chats.len() > 0 {
        let d = chats.drop_last();
        let rest = lids_of(d);
        let all = lids_of(chats);
        opaque_rows_are_found(d, base);
        if all.contains(base) {
            let i = choose|i: int| 0 <= i < all.len() && all[i] == base;
            if i < rest.len() {
                assert(rest[i] == base);
                let k = choose|k: int| 0 <= k < d.len() && is_opaque_row(#[trigger] d[k], base);
                assert(is_opaque_row(chats[k], base));
            } else {
                assert(is_opaque_row(chats[chats.len() - 1], base));
            }
        }
        if exists|k: int| 0 <= k < chats.len() && is_opaque_row(#[trigger] chats[k], base) {
            let k = choose|k: int| 0 <= k < chats.len() && is_opaque_row(#[trigger] chats[k], base);
            if k < d.len() {
                assert(is_opaque_row(d[k], base));
                let i = choose|i: int| 0 <= i < rest.len() && rest[i] == base;
                assert(all[i] == base);
            } else {
                assert(all[all.len() - 1] == base);
            }
        }
    }
}

/// Presence is kept under a peer's address, and of an opaque identity whose number
/// is known under that number too; of no other.
pub proof fn presence_is_kept_under_every_address(
    jid: (Seq<char>, Seq<char>, Seq<char>),
    lid_pn: Map<Seq<char>, Seq<char>>,
)
    ensures
        ({
            let keys = presence_keys_of(jid, lid_pn);
            let base = user_base_of(jid.0);
            let known = jid.1 == "lid"@ && lid_pn.dom().contains(base);
            &&& keys[0] == bare(jid.0, jid.1)
            &&& known ==> keys.len() == 2 && keys[1] == bare(lid_pn[base], "s.whatsapp.net"@)
            &&& !known ==> keys.len() == 1
        }),
{
}

}
