//! Laws of single messages of the open chat: coming in, taking another's place,
//! changing, going; and of reading a chat.
use vstd::prelude::*;

use crate::backend::{ChatIdV, MessageV};
use crate::tui::chat::changed_message;
use crate::tui::chat_laws::removal_is_exact;
use crate::tui::chat_model::{
    chat_ids, chat_read, first_of_is_least, incoming_pushed, message_ids, message_removed,
    message_replaced, without_message, ChatStateV,
};

verus! {

/// A message is appended to the open chat exactly where it is of that chat and
/// no message there has its id; nothing else of the state is touched but the rows
/// that a search shows.
pub proof fn incoming_messages_go_to_the_end(st: ChatStateV, m: MessageV)
    ensures
        ({
            let (after, r) = incoming_pushed(st, m);
            let known = exists|k: int|
                0 <= k < st.open_chat.unwrap().history.len() && (
                #[trigger] st.open_chat.unwrap().history[k]).message_id == m.message_id;
            &&& r <==> st.open_chat is Some && st.open_chat.unwrap().chat.id == m.chat
            &&& !r || known ==> after == st
            &&& r && !known ==> after.open_chat is Some && after.open_chat.unwrap().history
                == st.open_chat.unwrap().history.push(m) && after.open_chat.unwrap().chat
                == st.open_chat.unwrap().chat
            &&& after.chats == st.chats
            &&& after.message_list_state == st.message_list_state
            &&& after.drafts == st.drafts
            &&& after.search == st.search
            &&& after.message_search.query == st.message_search.query
        }),
{
    if st.open_chat is Some {
        let h = st.open_chat.unwrap().history;
        let ids = message_ids(h);
        if ids.contains(m.message_id) {
            let k = choose|k: int| 0 <= k < ids.len() && ids[k] == m.message_id;
            assert(h[k].message_id == m.message_id);
        }
        if exists|k: int| 0 <= k < h.len() && (#[trigger] h[k]).message_id == m.message_id {
            let k = choose|k: int| 0 <= k < h.len() && (#[trigger] h[k]).message_id == m.message_id;
            assert(ids[k] == m.message_id);
        }
    }
}

/// A message that takes another's place stands there alone under its id: the
/// other one is found by its id, every message with neither id stays, and none
/// comes in where there is nothing to replace.
pub proof fn replacing_is_by_id(st: ChatStateV, old_id: Seq<char>, new: MessageV, other: MessageV)
    requires
        st.open_chat is Some,
    ensures
        ({
            let (after, r) = message_replaced(st, old_id, new);
            let before = st.open_chat.unwrap().history;
            let now = after.open_chat.unwrap().history;
            &&& after.open_chat is Some
            &&& r <==> exists|k: int|
                0 <= k < before.len() && (#[trigger] before[k]).message_id == old_id
            &&& r ==> now.contains(new)
            &&& other.message_id != old_id && other.message_id != new.message_id ==> (
            now.contains(other) <==> before.contains(other))
            &&& old_id == new.message_id ==> now.len() == before.len()
            &&& old_id != new.message_id && other.message_id == new.message_id && other != new
                ==> !now.contains(other)
            &&& !r ==> !now.contains(new) || before.contains(new)
        }),
{
    let (after, r) = message_replaced(st, old_id, new);
    let before = st.open_chat.unwrap().history;
    let now = after.open_chat.unwrap().history;
    let kept = if old_id != new.message_id {
        without_message(before, new.message_id)
    } else {
        before
    };
    let ids = message_ids(kept);
    first_of_is_least(ids, old_id);
    removal_is_exact(before, new.message_id, other);
    removal_is_exact(before, new.message_id, new);
    assert(kept.contains(other) ==> before.contains(other));
    match crate::tui::chat_model::first_of(ids, old_id) {
        Some(i) => {
            assert(kept[i].message_id == old_id);
            removal_is_exact(before, new.message_id, kept[i]);
            assert(kept.contains(kept[i]));
            assert(before.contains(kept[i]));
            let k = choose|k: int| 0 <= k < before.len() && before[k] == kept[i];
            assert(before[k].message_id == old_id);
            assert(now == kept.update(i, new));
            assert(now[i] == new);
            if kept.contains(other) && other.message_id != old_id {
                let j = choose|j: int| 0 <= j < kept.len() && kept[j] == other;
                assert(now[j] == other);
            }
            if now.contains(other) && other != new {
                let j = choose|j: int| 0 <= j < now.len() && now[j] == other;
                assert(kept[j] == other);
            }
        },
        None => {
            if exists|k: int| 0 <= k < before.len() && (#[trigger] before[k]).message_id == old_id {
                let k = choose|k: int|
                    0 <= k < before.len() && (#[trigger] before[k]).message_id == old_id;
                removal_is_exact(before, new.message_id, before[k]);
                assert(before.contains(before[k]));
                assert(kept.contains(before[k]));
                let j = choose|j: int| 0 <= j < kept.len() && kept[j] == before[k];
                assert(ids[j] == old_id);
            }
            assert(now == kept);
        },
    }
}

/// Removing a message leaves every other one, and none with its id; it reports
/// whether there was one.
pub proof fn removing_is_by_id(st: ChatStateV, id: Seq<char>, m: MessageV)
    requires
        st.open_chat is Some,
    ensures
        ({
            let (after, r) = message_removed(st, id);
            let before = st.open_chat.unwrap().history;
            &&& after.open_chat is Some
            &&& after.open_chat.unwrap().history.contains(m) <==> before.contains(m)
                && m.message_id != id
            &&& r <==> exists|k: int|
                0 <= k < before.len() && (#[trigger] before[k]).message_id == id
            &&& !r ==> after.open_chat.unwrap().history == before
            &&& after.chats == st.chats
            &&& after.message_list_state == st.message_list_state
        }),
{
    let before = st.open_chat.unwrap().history;
    removal_is_exact(before, id, m);
    removal_counts(before, id);
}

proof fn removal_counts(s: Seq<MessageV>, id: Seq<char>)
    ensures
        without_message(s, id).len() <= s.len(),
        without_message(s, id).len() == s.len() ==> without_message(s, id) == s,
        without_message(s, id).len() != s.len() <==> exists|k: int|
            0 <= k < s.len() && (#[trigger] s[k]).message_id == id,
    decreases s.len(),
{
    if s.len() > 0 {
        let d = s.drop_last();
        removal_counts(d, id);
        if exists|k: int| 0 <= k < d.len() && (#[trigger] d[k]).message_id == id {
            let k = choose|k: int| 0 <= k < d.len() && (#[trigger] d[k]).message_id == id;
            assert(s[k].message_id == id);
        }
        if exists|k: int| 0 <= k < s.len() && (#[trigger] s[k]).message_id == id {
            let k = choose|k: int| 0 <= k < s.len() && (#[trigger] s[k]).message_id == id;
            if k < d.len() {
                assert(d[k].message_id == id);
            }
        }
        if s.last().message_id == id {
            assert(s[s.len() - 1].message_id == id);
        } else if without_message(s, id).len() == s.len() {
            assert(without_message(s, id) =~= s);
        }
    }
}

/// A change to one message leaves every other one and their number; it reports
/// whether the message is there, and changes nothing where it is not.
pub proof fn changes_are_to_one_message(
    st: ChatStateV,
    after: ChatStateV,
    id: Seq<char>,
    r: bool,
    change: spec_fn(MessageV) -> MessageV,
    i: int,
)
    requires
        changed_message(st, after, id, r, change),
        st.open_chat is Some,
        0 <= i < st.open_chat.unwrap().history.len(),
    ensures
        after.open_chat is Some,
        after.open_chat.unwrap().history.len() == st.open_chat.unwrap().history.len(),
        st.open_chat.unwrap().history[i].message_id == id ==> r,
        st.open_chat.unwrap().history[i].message_id != id
            ==> after.open_chat.unwrap().history[i] == st.open_chat.unwrap().history[i],
        st.open_chat.unwrap().history[i].message_id == id && (forall|k: int|
            0 <= k < i ==> (#[trigger] st.open_chat.unwrap().history[k]).message_id != id)
            ==> after.open_chat.unwrap().history[i] == change(st.open_chat.unwrap().history[i]),
        !r ==> after == st,
        after.chats == st.chats,
        after.message_list_state == st.message_list_state,
{
    let h = st.open_chat.unwrap().history;
    let ids = message_ids(h);
    first_of_is_least(ids, id);
    assert(ids[i] == h[i].message_id);
    if h[i].message_id == id && (forall|k: int| 0 <= k < i ==> (#[trigger] h[k]).message_id != id) {
        let j = crate::tui::chat_model::first_of(ids, id).unwrap();
        if j < i {
            assert(h[j].message_id != id);
        }
        assert(j == i);
    }
}

/// Reading a chat clears the mark and the count of its row and nothing else of
/// it, and leaves every other row.
pub proof fn reading_clears_the_row(st: ChatStateV, id: ChatIdV, i: int)
    requires
        0 <= i < st.chats.len(),
    ensures
        ({
            let after = chat_read(st, id);
            let first = st.chats[i].id == id && forall|k: int|
                0 <= k < i ==> (#[trigger] st.chats[k]).id != id;
            &&& after.chats.len() == st.chats.len()
            &&& first ==> !after.chats[i].unread && after.chats[i].unread_count == 0
            &&& !first ==> after.chats[i] == st.chats[i]
            &&& after.chats[i].id == st.chats[i].id
            &&& after.chats[i].contact_name == st.chats[i].contact_name
            &&& after.chats[i].last_message_ts == st.chats[i].last_message_ts
            &&& after.chats[i].fixed == st.chats[i].fixed
            &&& after.chats[i].status == st.chats[i].status
            &&& after.chats[i].verified == st.chats[i].verified
            &&& after.open_chat == st.open_chat
            &&& after.chat_list_state == st.chat_list_state
        }),
{
    let ids = chat_ids(st.chats);
    first_of_is_least(ids, id);
    assert(ids[i] == st.chats[i].id);
    match crate::tui::chat_model::first_of(ids, id) {
        Some(j) => {
            assert(st.chats[j].id == id);
            if j < i {
                assert(!(forall|k: int| 0 <= k < i ==> (#[trigger] st.chats[k]).id != id));
            } else {
                assert forall|k: int| 0 <= k < i implies (#[trigger] st.chats[k]).id != id by {
                    assert(ids[k] != id);
                }
            }
        },
        None => {},
    }
}

/// Without an open chat there is no message to change.
pub proof fn nothing_changes_without_a_chat(
    st: ChatStateV,
    after: ChatStateV,
    id: Seq<char>,
    r: bool,
    change: spec_fn(MessageV) -> MessageV,
    new: MessageV,
)
    requires
        st.open_chat is None,
        changed_message(st, after, id, r, change),
    ensures
        !r,
        after == st,
        message_replaced(st, id, new) == (st, false),
        message_removed(st, id) == (st, false),
        incoming_pushed(st, new) == (st, false),
{
}

}
