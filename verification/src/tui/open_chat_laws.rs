//! Laws of the open chat: its search, its selection, its drafts.
use vstd::prelude::*;

use crate::backend::{ChatIdV, Message, MessageV};
use crate::order::{is_ordered, ordered, ordering_is_stable, ordering_keeps_members, Ranked};
use crate::text::{blank, trimmed};
use crate::tui::chat_model::{
    chat_ids, draft_of, draft_saved, first_of, first_of_is_least, history_prepended,
    history_refreshed, message_ids, message_query_typed, message_search_accepted,
    message_search_begun, message_search_dropped, opened, searched, selection_restored,
    selection_saved, unknown_messages, with_all_fetched, with_fetched, ChatStateV,
};
use crate::tui::search::no_search;

verus! {

/// A message search that is given up while typing leaves the selection where
/// it was when the search began, whatever was typed.
pub proof fn cancelling_returns_to_the_message(
    st: ChatStateV,
    query: Seq<char>,
    column: usize,
)
    requires
        st.open_chat is Some,
        st.message_list_state.selected is Some,
    ensures
        message_search_dropped(
            message_query_typed(message_search_begun(st), query, column),
        ).message_list_state.selected == st.message_list_state.selected,
        message_search_dropped(
            message_query_typed(message_search_begun(st), query, column),
        ).open_chat == st.open_chat,
{
}

/// Typing on changes neither where a message search comes back to nor that the
/// user is typing.
pub proof fn typing_keeps_the_way_back(st: ChatStateV, query: Seq<char>, column: usize)
    ensures
        message_query_typed(st, query, column).message_search_anchor == st.message_search_anchor,
        message_query_typed(st, query, column).message_search.inserting
            == st.message_search.inserting,
        message_query_typed(st, query, column).open_chat == st.open_chat,
{
}

/// Dropping a message search that was accepted leaves the selection alone.
pub proof fn accepted_search_keeps_the_selection(st: ChatStateV)
    ensures
        message_search_dropped(message_search_accepted(st)).message_list_state
            == message_search_accepted(st).message_list_state,
{
}

/// A message search without an open chat is none.
pub proof fn nothing_to_search_without_a_chat(st: ChatStateV)
    requires
        st.open_chat is None,
    ensures
        message_search_begun(st) == st,
{
}

/// Unsent text is read back as it was kept, blank text as none, and the drafts
/// of other chats stay.
pub proof fn drafts_are_read_back(st: ChatStateV, id: ChatIdV, text: Seq<char>, other: ChatIdV)
    ensures
        draft_of(draft_saved(st, id, text), id) == if blank(text) {
            None
        } else {
            Some(text)
        },
        other != id ==> draft_of(draft_saved(st, id, text), other) == draft_of(st, other),
{
}

/// Coming back to a chat selects the message that was selected in it, where
/// there still are as many.
pub proof fn selection_is_read_back(st: ChatStateV, len: int)
    requires
        st.open_chat is Some,
        match st.message_list_state.selected {
            Some(i) => i < len,
            None => false,
        },
    ensures
        selection_restored(selection_saved(st), len).message_list_state.selected
            == st.message_list_state.selected,
{
}

/// Ordering a list in front of an ordered one that comes after it orders only
/// the front.
proof fn ordering_a_front(front: Seq<MessageV>, back: Seq<MessageV>)
    requires
        is_ordered::<Message>(back),
        forall|i: int, j: int|
            0 <= i < front.len() && 0 <= j < back.len() ==> (#[trigger] front[i]).timestamp <= (
            #[trigger] back[j]).timestamp,
    ensures
        ordered::<Message>(front + back) == ordered::<Message>(front) + back,
    decreases back.len(),
{
    let o = ordered::<Message>(front);
    if back.len() == 0 {
        assert(front + back =~= front);
        assert(o + back =~= o);
    } else {
        let d = back.drop_last();
        let x = back.last();
        assert(is_ordered::<Message>(d));
        ordering_a_front(front, d);
        assert((front + back).drop_last() =~= front + d);
        let s = o + d;
        ordering_is_stable::<Message>(front);
        if s.len() > 0 {
            if d.len() > 0 {
                assert(s.last() == back[d.len() - 1]);
                assert(Message::rank_of(back[d.len() - 1]) <= Message::rank_of(
                    back[back.len() - 1],
                ));
            } else {
                assert(s =~= o);
                ordering_keeps_members::<Message>(front, o.last());
                assert(o.contains(o[o.len() - 1]));
                let k = choose|k: int| 0 <= k < front.len() && front[k] == o.last();
                assert(front[k].timestamp <= back[0].timestamp);
            }
        }
        assert(s.push(x) =~= o + back);
    }
}

proof fn unknown_are_older(older: Seq<MessageV>, h: Seq<MessageV>)
    ensures
        forall|i: int|
            0 <= i < unknown_messages(older, h).len() ==> older.contains(
                #[trigger] unknown_messages(older, h)[i],
            ),
        unknown_messages(older, h).len() <= older.len(),
    decreases older.len(),
{
    if older.len() > 0 {
        let d = older.drop_last();
        let r = unknown_messages(d, h);
        let q = unknown_messages(older, h);
        unknown_are_older(d, h);
        assert forall|i: int| 0 <= i < q.len() implies older.contains(#[trigger] q[i]) by {
            if i < r.len() {
                assert(q[i] == r[i]);
                assert(d.contains(r[i]));
                let k = choose|k: int| 0 <= k < d.len() && d[k] == r[i];
                assert(older[k] == q[i]);
            } else {
                assert(older[older.len() - 1] == q[i]);
            }
        }
    }
}

/// When older messages come in, the selection stays on its message, and the
/// messages that were there stay as they stood.
pub proof fn prepending_keeps_the_selected_message(
    st: ChatStateV,
    chat: ChatIdV,
    older: Seq<MessageV>,
)
    requires
        opened(st, chat),
        st.open_chat.unwrap().history.len() + older.len() <= usize::MAX,
        match st.message_list_state.selected {
            Some(i) => i < st.open_chat.unwrap().history.len(),
            None => false,
        },
        is_ordered::<Message>(st.open_chat.unwrap().history),
        forall|i: int, j: int|
            0 <= i < older.len() && 0 <= j < st.open_chat.unwrap().history.len() ==> (
            #[trigger] older[i]).timestamp <= (
            #[trigger] st.open_chat.unwrap().history[j]).timestamp,
    ensures
        match history_prepended(st, chat, older).message_list_state.selected {
            Some(row) => row < history_prepended(st, chat, older).open_chat.unwrap().history.len()
                && history_prepended(st, chat, older).open_chat.unwrap().history[row as int]
                == st.open_chat.unwrap().history[st.message_list_state.selected.unwrap() as int],
            None => false,
        },
{
    let old = st.open_chat.unwrap().history;
    let more = unknown_messages(older, old);
    unknown_are_older(older, old);
    assert forall|i: int, j: int| 0 <= i < more.len() && 0 <= j < old.len() implies (
    #[trigger] more[i]).timestamp <= (#[trigger] old[j]).timestamp by {
        assert(older.contains(more[i]));
        let k = choose|k: int| 0 <= k < older.len() && older[k] == more[i];
        assert(older[k].timestamp <= old[j].timestamp);
    }
    ordering_a_front(more, old);
    ordering_is_stable::<Message>(more);
    let i = st.message_list_state.selected.unwrap() as int;
    assert((ordered::<Message>(more) + old)[more.len() + i] == old[i]);
}

/// Whether no two messages of a list have one id.
pub open spec fn distinct_messages(s: Seq<MessageV>) -> bool {
    forall|i: int, j: int|
        0 <= i < j < s.len() ==> (#[trigger] s[i]).message_id != (#[trigger] s[j]).message_id
}

proof fn fetching_keeps_distinct(h: Seq<MessageV>, list: Seq<MessageV>)
    requires
        distinct_messages(h),
    ensures
        distinct_messages(with_all_fetched(h, list)),
    decreases list.len(),
{
    if list.len() > 0 {
        let g = with_all_fetched(h, list.drop_last());
        let m = list.last();
        let f = with_fetched(g, m);
        fetching_keeps_distinct(h, list.drop_last());
        first_of_is_least(message_ids(g), m.message_id);
        match first_of(message_ids(g), m.message_id) {
            Some(k) => {
                assert(message_ids(g)[k] == m.message_id);
                assert forall|i: int, j: int| 0 <= i < j < f.len() implies (
                #[trigger] f[i]).message_id != (#[trigger] f[j]).message_id by {
                    assert(g[i].message_id != g[j].message_id);
                }
            },
            None => {
                assert forall|i: int, j: int| 0 <= i < j < f.len() implies (
                #[trigger] f[i]).message_id != (#[trigger] f[j]).message_id by {
                    if j < g.len() {
                        assert(g[i].message_id != g[j].message_id);
                    } else {
                        assert(message_ids(g)[i] == g[i].message_id);
                    }
                }
            },
        }
    }
}

proof fn rearranged_messages_differ(s: Seq<MessageV>, o: Seq<MessageV>, i: int, j: int)
    requires
        distinct_messages(s),
        s.to_multiset() == o.to_multiset(),
        0 <= i < j < o.len(),
    ensures
        o[i].message_id != o[j].message_id,
{
    broadcast use vstd::seq_lib::group_to_multiset_ensures;

    let a = o[i];
    let b = o[j];
    assert(o.contains(a) && o.contains(b));
    assert(s.to_multiset().count(a) > 0);
    assert(s.to_multiset().count(b) > 0);
    assert(s.contains(a) && s.contains(b));
    let k = choose|k: int| 0 <= k < s.len() && s[k] == a;
    let l = choose|l: int| 0 <= l < s.len() && s[l] == b;
    if k < l {
        assert(s[k].message_id != s[l].message_id);
    } else if l < k {
        assert(s[l].message_id != s[k].message_id);
    } else {
        let p = o.remove(j);
        assert(p[i] == a);
        assert(p.contains(a));
        vstd::seq_lib::to_multiset_remove(o, j);
        assert(p.to_multiset().count(a) > 0);
        assert(o.to_multiset().count(a) >= 2);
        let t = s.remove(k);
        vstd::seq_lib::to_multiset_remove(s, k);
        assert(t.to_multiset().count(a) > 0);
        assert(t.contains(a));
        let m = choose|m: int| 0 <= m < t.len() && t[m] == a;
        let m2 = if m < k { m } else { m + 1 };
        assert(s[m2] == a);
        if m2 < k {
            assert(s[m2].message_id != s[k].message_id);
        } else {
            assert(s[k].message_id != s[m2].message_id);
        }
    }
}

/// Fetching the open chat anew brings no message in twice.
pub proof fn refresh_keeps_each_message_once(
    st: ChatStateV,
    chat: ChatIdV,
    list: Seq<MessageV>,
)
    requires
        opened(st, chat),
        distinct_messages(st.open_chat.unwrap().history),
    ensures
        distinct_messages(history_refreshed(st, chat, list).open_chat.unwrap().history),
{
    let merged = with_all_fetched(st.open_chat.unwrap().history, list);
    let o = ordered::<Message>(merged);
    fetching_keeps_distinct(st.open_chat.unwrap().history, list);
    ordering_is_stable::<Message>(merged);
    assert forall|i: int, j: int| 0 <= i < j < o.len() implies (#[trigger] o[i]).message_id != (
    #[trigger] o[j]).message_id by {
        rearranged_messages_differ(merged, o, i, j);
    }
}

/// The selection that is restored is a message that is there: the remembered one
/// where the chat still has it, else the last; without messages it is none.
pub proof fn restored_selections_are_there(st: ChatStateV, len: int)
    requires
        0 <= len <= usize::MAX,
        st.open_chat is Some,
    ensures
        ({
            let id = st.open_chat.unwrap().chat.id;
            let kept = st.selected_messages;
            let now = selection_restored(st, len).message_list_state.selected;
            &&& len == 0 ==> now is None
            &&& len > 0 ==> now is Some && now.unwrap() < len
            &&& len > 0 && kept.dom().contains(id) && kept[id] < len ==> now == Some(kept[id])
            &&& len > 0 && !(kept.dom().contains(id) && kept[id] < len) ==> now.unwrap() == len - 1
        }),
{
}

/// Giving a message search up while typing goes back to the message it began at,
/// else to the last one; the query is gone. An accepted search keeps the
/// selection.
pub proof fn dropped_searches_go_back(st: ChatStateV)
    requires
        st.open_chat is Some,
        st.open_chat.unwrap().history.len() <= usize::MAX,
    ensures
        ({
            let after = message_search_dropped(st);
            let h = st.open_chat.unwrap().history;
            let now = after.message_list_state.selected;
            &&& after.message_search.query.len() == 0
            &&& !after.message_search.inserting
            &&& after.message_search_anchor is None
            &&& st.message_search.inserting && st.message_search_anchor is Some ==> now
                == st.message_search_anchor
            &&& st.message_search.inserting && st.message_search_anchor is None && h.len() > 0
                ==> now is Some && now.unwrap() == h.len() - 1
            &&& st.message_search.inserting && st.message_search_anchor is None && h.len() == 0
                ==> now == Some(0usize)
            &&& !st.message_search.inserting ==> after.message_list_state == st.message_list_state
            &&& after.open_chat == st.open_chat
            &&& after.chats == st.chats
        }),
{
}

/// No search has no query, shows no rows, remembers nothing and does not take the
/// keyboard.
pub proof fn no_search_is_empty()
    ensures
        no_search().query.len() == 0,
        no_search().column == 0,
        !no_search().inserting,
        no_search().visible.len() == 0,
        no_search().anchor is None,
{
}

/// Without a query the chat asked for is selected, else the one that was
/// remembered, by its id.
pub proof fn unfiltered_lists_select_the_remembered_chat(st: ChatStateV, a: usize)
    requires
        trimmed(st.search.query).len() == 0,
        st.chats.len() <= usize::MAX,
        st.search.anchor == Some(a),
        a < st.chats.len(),
    ensures
        searched(st, None).chat_list_state.selected is Some,
        searched(st, None).chat_list_state.selected.unwrap() < st.chats.len(),
        st.chats[searched(st, None).chat_list_state.selected.unwrap() as int].id
            == st.chats[a as int].id,
        searched(st, None).search.visible.len() == 0,
{
    let ids = chat_ids(st.chats);
    let id = st.chats[a as int].id;
    first_of_is_least(ids, id);
    assert(ids[a as int] == id);
}

/// A remembered row that the list no longer has selects nothing.
pub proof fn lost_rows_select_nothing(st: ChatStateV)
    requires
        trimmed(st.search.query).len() == 0,
        st.search.anchor is None || st.search.anchor.unwrap() >= st.chats.len(),
    ensures
        searched(st, None).chat_list_state.selected is None,
        searched(st, None).search.anchor is None,
{
}

}
