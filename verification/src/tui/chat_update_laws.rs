//! Laws of what an update does to the chat list, and what fetched messages do
//! to the open chat.
use vstd::prelude::*;

use crate::backend::{Chat, ChatIdV, ChatV, Message, MessageAction, MessageV};
use crate::order::{ordered, ordering_is_stable, ordering_keeps_members, Ranked};
use crate::text::{blank, includes, lowercase, trimmed};
use crate::tui::chat_laws::deduping_keeps_each_id_once;
use crate::tui::chat_model::{
    belongs, chat_ids, deduped, distinct_ids, failed_message, first_of, first_of_at,
    first_of_is_least, first_of_none, followed, is_newer, matching, merged_row, message_ids,
    message_rows_refreshed, message_searched, names, needle_of, searched, texts, unknown_messages,
    upserted_list, with_fetched, without_placeholder, ChatStateV,
};
use crate::tui::list_state::{row_above, row_below, with_selected, ListState};
use crate::tui::search::{search_active, source_row, SearchV};

verus! {

/// A row takes the name of every update that carries one, whatever it was
/// called before; a nameless update leaves the name.
pub proof fn rows_take_the_name_of_an_update(row: ChatV, update: ChatV)
    ensures
        update.contact_name.len() > 0 ==> merged_row(row, update).contact_name
            == update.contact_name,
        update.contact_name.len() == 0 ==> merged_row(row, update).contact_name
            == row.contact_name,
        update.contact_name.len() == 0 ==> merged_row(row, update).verified == row.verified,
        update.contact_name.len() > 0 ==> (merged_row(row, update).verified <==> row.verified
            || update.verified),
{
}

/// A row takes every status that says something, is pinned from its first
/// pinned update on, and stands at the later of both message times.
pub proof fn rows_take_status_pin_and_time(row: ChatV, update: ChatV)
    ensures
        update.status is Some && !blank(update.status.unwrap()) ==> merged_row(row, update).status
            == update.status,
        update.status is None || blank(update.status.unwrap()) ==> merged_row(row, update).status
            == row.status,
        merged_row(row, update).fixed <==> row.fixed || update.fixed,
        update.last_message_ts is None ==> merged_row(row, update).last_message_ts
            == row.last_message_ts,
        row.last_message_ts is None ==> merged_row(row, update).last_message_ts
            == update.last_message_ts,
        row.last_message_ts is Some && update.last_message_ts is Some && row.last_message_ts.unwrap()
            >= update.last_message_ts.unwrap() ==> merged_row(row, update).last_message_ts
            == row.last_message_ts,
        row.last_message_ts is Some && update.last_message_ts is Some && row.last_message_ts.unwrap()
            < update.last_message_ts.unwrap() ==> merged_row(row, update).last_message_ts
            == update.last_message_ts,
{
}

/// A row is unread after an update that says so. One that carries no message
/// sets the count, to nothing where it counts nothing; one that carries a
/// message and counts nothing leaves both.
pub proof fn rows_take_the_unread_count(row: ChatV, update: ChatV)
    ensures
        update.unread || update.unread_count > 0 ==> merged_row(row, update).unread,
        update.unread_count > 0 ==> merged_row(row, update).unread_count == update.unread_count,
        update.last_message_ts is None ==> merged_row(row, update).unread_count
            == update.unread_count,
        update.last_message_ts is None && !update.unread && update.unread_count <= 0
            ==> !merged_row(row, update).unread,
        update.last_message_ts is Some && !update.unread && update.unread_count <= 0 ==> merged_row(
            row,
            update,
        ).unread == row.unread && merged_row(row, update).unread_count == row.unread_count,
{
}

proof fn member_survives(list: Seq<ChatV>, sort: bool, c: ChatV)
    requires
        distinct_ids(list),
        list.contains(c),
    ensures
        deduped(
            if sort {
                ordered::<Chat>(list)
            } else {
                list
            },
        ).contains(c),
{
    deduping_keeps_each_id_once(list);
    ordering_keeps_members::<Chat>(list, c);
    let o = ordered::<Chat>(list);
    deduping_keeps_each_id_once(o);
    crate::tui::chat_laws::ordering_keeps_ids(list, c.id);
    if sort {
        assert(o.contains(c));
        let k = choose|k: int| 0 <= k < o.len() && o[k] == c;
        assert(chat_ids(o)[k] == c.id);
        assert(chat_ids(o).contains(c.id));
        assert(chat_ids(deduped(o)).contains(c.id));
        let p = choose|p: int|
            0 <= p < chat_ids(deduped(o)).len() && chat_ids(deduped(o))[p] == c.id;
        let x = deduped(o)[p];
        assert(x.id == c.id);
        assert(deduped(o).contains(x));
        assert(o.contains(x));
        ordering_keeps_members::<Chat>(list, x);
        assert(list.contains(x));
        let a = choose|a: int| 0 <= a < list.len() && list[a] == x;
        let b = choose|b: int| 0 <= b < list.len() && list[b] == c;
        if a < b {
            assert(list[a].id != list[b].id);
        } else if b < a {
            assert(list[b].id != list[a].id);
        }
        assert(x == c);
    }
}

/// An update of a listed chat reaches its row and no other: the row carries the
/// update's name unless that is empty or a placeholder, and every other chat is
/// in the list as it was.
pub proof fn updates_reach_their_row(chats: Seq<ChatV>, update: ChatV, i: int, j: int)
    requires
        distinct_ids(chats),
        0 <= i < chats.len(),
        chats[i].id == update.id,
        0 <= j < chats.len(),
        j != i,
    ensures
        upserted_list(chats, update).contains(chats[j]),
        exists|k: int|
            0 <= k < upserted_list(chats, update).len() && ({
                let row = #[trigger] upserted_list(chats, update)[k];
                let says = update.contact_name.len() > 0 && update.contact_name != "Unknown"@
                    && update.contact_name != "You"@;
                &&& row.id == update.id
                &&& says ==> row.contact_name == update.contact_name
                &&& !says ==> row.contact_name == chats[i].contact_name
                &&& update.unread_count > 0 ==> row.unread && row.unread_count
                    == update.unread_count
                &&& update.unread ==> row.unread
                &&& update.fixed || chats[i].fixed <==> row.fixed
                &&& row.scroll == chats[i].scroll
            }),
{
    let rows = chats;
    deduping_keeps_each_id_once(chats);
    let u = without_placeholder(update);
    let ids = chat_ids(rows);
    assert(ids[i] == u.id);
    assert forall|k: int| 0 <= k < i implies ids[k] != u.id by {
        assert(rows[k].id != rows[i].id);
    }
    first_of_at(ids, u.id, i);
    let row = merged_row(rows[i], u);
    let list = rows.update(i, row);
    assert forall|a: int, b: int| 0 <= a < b < list.len() implies (#[trigger] list[a]).id != (
    #[trigger] list[b]).id by {
        assert(rows[a].id != rows[b].id);
    }
    let sort = row.fixed || is_newer(u, rows[i]);
    assert(list[i] == row);
    assert(list[j] == chats[j]);
    member_survives(list, sort, row);
    member_survives(list, sort, chats[j]);
    let out = upserted_list(chats, update);
    let k = choose|k: int| 0 <= k < out.len() && out[k] == row;
    assert(out[k] == row);
}

/// An update of a chat that is not listed adds it as it came, scrolled to the
/// top and without a placeholder for a name; every listed chat stays.
pub proof fn updates_add_unlisted_chats(chats: Seq<ChatV>, update: ChatV, j: int)
    requires
        distinct_ids(chats),
        forall|k: int| 0 <= k < chats.len() ==> (#[trigger] chats[k]).id != update.id,
    ensures
        0 <= j < chats.len() ==> upserted_list(chats, update).contains(chats[j]),
        exists|k: int|
            0 <= k < upserted_list(chats, update).len() && ({
                let row = #[trigger] upserted_list(chats, update)[k];
                let placeholder = update.contact_name == "Unknown"@ || update.contact_name
                    == "You"@;
                &&& row.id == update.id
                &&& placeholder ==> row.contact_name.len() == 0
                &&& !placeholder ==> row.contact_name == update.contact_name
                &&& row.unread == update.unread
                &&& row.unread_count == update.unread_count
                &&& row.fixed == update.fixed
                &&& row.verified == update.verified
                &&& row.status == update.status
                &&& row.last_message_ts == update.last_message_ts
                &&& row.scroll == 0
            }),
{
    deduping_keeps_each_id_once(chats);
    let u = without_placeholder(update);
    let ids = chat_ids(chats);
    assert forall|k: int| 0 <= k < ids.len() implies ids[k] != u.id by {
        assert(ids[k] == chats[k].id);
    }
    first_of_none(ids, u.id);
    let row = ChatV { scroll: 0, ..u };
    let list = chats.push(row);
    assert forall|a: int, b: int| 0 <= a < b < list.len() implies (#[trigger] list[a]).id != (
    #[trigger] list[b]).id by {
        if b < chats.len() {
            assert(chats[a].id != chats[b].id);
        }
    }
    assert(list[chats.len() as int] == row);
    member_survives(list, true, row);
    if 0 <= j < chats.len() {
        assert(list[j] == chats[j]);
        member_survives(list, true, chats[j]);
    }
    let out = upserted_list(chats, update);
    let k = choose|k: int| 0 <= k < out.len() && out[k] == row;
    assert(out[k] == row);
}

/// In the order of the list pinned chats come before all others, and among
/// either a later message before an earlier one and before none.
pub proof fn lists_put_pinned_then_recent_first(s: Seq<ChatV>, i: int, j: int)
    requires
        0 <= i < j < ordered::<Chat>(s).len(),
    ensures
        ordered::<Chat>(s)[j].fixed ==> ordered::<Chat>(s)[i].fixed,
        ordered::<Chat>(s)[i].fixed == ordered::<Chat>(s)[j].fixed && ordered::<Chat>(
            s,
        )[j].last_message_ts is Some ==> (ordered::<Chat>(s)[i].last_message_ts is Some
            && ordered::<Chat>(s)[i].last_message_ts.unwrap() >= ordered::<Chat>(
            s,
        )[j].last_message_ts.unwrap()) || ordered::<Chat>(s)[j].last_message_ts == Some(i64::MIN),
        ordered::<Chat>(s).len() == s.len(),
{
    ordering_is_stable::<Chat>(s);
    let o = ordered::<Chat>(s);
    assert(Chat::rank_of(o[i]) <= Chat::rank_of(o[j]));
}

/// In the order of a history no message comes before an older one.
pub proof fn histories_go_from_old_to_new(s: Seq<MessageV>, i: int, j: int)
    requires
        0 <= i < j < ordered::<Message>(s).len(),
    ensures
        ordered::<Message>(s)[i].timestamp <= ordered::<Message>(s)[j].timestamp,
        ordered::<Message>(s).len() == s.len(),
{
    ordering_is_stable::<Message>(s);
    let o = ordered::<Message>(s);
    assert(Message::rank_of(o[i]) <= Message::rank_of(o[j]));
}

/// A chat is a provider's exactly where its id says so.
pub proof fn chats_belong_to_their_provider(n: i64, raw: Seq<char>)
    ensures
        belongs(ChatIdV::Telegram(n), crate::backend::Provider::Telegram),
        !belongs(ChatIdV::Telegram(n), crate::backend::Provider::WhatsApp),
        belongs(ChatIdV::WhatsApp(raw), crate::backend::Provider::WhatsApp),
        !belongs(ChatIdV::WhatsApp(raw), crate::backend::Provider::Telegram),
        !belongs(ChatIdV::Myself, crate::backend::Provider::Telegram),
        !belongs(ChatIdV::Myself, crate::backend::Provider::WhatsApp),
{
}

/// A fetched message replaces the known one of its id, keeping a quote that the
/// fetched one lacks; an unknown one comes at the end. No other message is
/// touched.
pub proof fn fetched_messages_replace_known_ones(h: Seq<MessageV>, m: MessageV, i: int)
    requires
        0 <= i < h.len(),
        h[i].message_id == m.message_id,
        forall|k: int| 0 <= k < i ==> (#[trigger] h[k]).message_id != m.message_id,
    ensures
        with_fetched(h, m).len() == h.len(),
        forall|k: int| 0 <= k < h.len() && k != i ==> #[trigger] with_fetched(h, m)[k] == h[k],
        ({
            let r = with_fetched(h, m)[i];
            &&& r.message_id == m.message_id
            &&& r.text == m.text
            &&& r.sender == m.sender
            &&& r.timestamp == m.timestamp
            &&& r.from_me == m.from_me
            &&& r.media == m.media
            &&& r.msg_actions == m.msg_actions
            &&& r.pending == m.pending
            &&& r.failed == m.failed
            &&& m.reply_to_id is Some ==> r.reply_to_id == m.reply_to_id
            &&& m.reply_to_id is None ==> r.reply_to_id == h[i].reply_to_id
            &&& m.reply_ctx is Some ==> r.reply_ctx == m.reply_ctx
            &&& m.reply_ctx is None ==> r.reply_ctx == h[i].reply_ctx
        }),
{
    let ids = message_ids(h);
    assert(ids[i] == m.message_id);
    assert forall|k: int| 0 <= k < i implies ids[k] != m.message_id by {
        assert(ids[k] == h[k].message_id);
    }
    first_of_at(ids, m.message_id, i);
}

/// A fetched message that is not known comes in at the end.
pub proof fn fetched_messages_come_in(h: Seq<MessageV>, m: MessageV)
    requires
        forall|k: int| 0 <= k < h.len() ==> (#[trigger] h[k]).message_id != m.message_id,
    ensures
        with_fetched(h, m) == h.push(m),
{
    let ids = message_ids(h);
    assert forall|k: int| 0 <= k < ids.len() implies ids[k] != m.message_id by {
        assert(ids[k] == h[k].message_id);
    }
    first_of_none(ids, m.message_id);
}

/// Of older messages exactly those come in whose id is not known.
pub proof fn only_unknown_older_messages_come_in(
    older: Seq<MessageV>,
    h: Seq<MessageV>,
    m: MessageV,
)
    ensures
        unknown_messages(older, h).contains(m) <==> older.contains(m) && !(exists|k: int|
            0 <= k < h.len() && (#[trigger] h[k]).message_id == m.message_id),
    decreases older.len(),
{
    let ids = message_ids(h);
    if exists|k: int| 0 <= k < h.len() && (#[trigger] h[k]).message_id == m.message_id {
        let k = choose|k: int| 0 <= k < h.len() && (#[trigger] h[k]).message_id == m.message_id;
        assert(ids[k] == m.message_id);
        assert(ids.contains(m.message_id));
    } else if ids.contains(m.message_id) {
        let k = choose|k: int| 0 <= k < ids.len() && ids[k] == m.message_id;
        assert(h[k].message_id == m.message_id);
    }
    if older.len() > 0 {
        let d = older.drop_last();
        only_unknown_older_messages_come_in(d, h, m);
        let r = unknown_messages(d, h);
        let q = unknown_messages(older, h);
        if older.contains(m) {
            let k = choose|k: int| 0 <= k < older.len() && older[k] == m;
            if k < d.len() {
                assert(d[k] == m);
            }
        }
        if d.contains(m) {
            let k = choose|k: int| 0 <= k < d.len() && d[k] == m;
            assert(older[k] == m);
        }
        if r.contains(m) {
            let k = choose|k: int| 0 <= k < r.len() && r[k] == m;
            assert(q[k] == m);
        }
        if q.contains(m) {
            let k = choose|k: int| 0 <= k < q.len() && q[k] == m;
            if k < r.len() {
                assert(r[k] == m);
            } else {
                assert(older[older.len() - 1] == m);
            }
        }
        if older.last() == m && !ids.contains(m.message_id) {
            assert(q[q.len() - 1] == m);
        }
    }
}

/// The selection follows the end of a growing history where it was there, and
/// else stays on its row; it never leaves the history.
pub proof fn selections_follow_the_end(selected: Option<usize>, old_len: int, new_len: int)
    requires
        0 <= old_len <= usize::MAX,
        0 <= new_len <= usize::MAX,
    ensures
        new_len == 0 ==> followed(selected, old_len, new_len) is None,
        new_len > 0 ==> followed(selected, old_len, new_len) is Some && followed(
            selected,
            old_len,
            new_len,
        ).unwrap() < new_len,
        old_len > 0 && new_len > old_len && selected is Some && selected.unwrap() == old_len - 1
            ==> followed(selected, old_len, new_len).unwrap() == new_len - 1,
        selected is Some && selected.unwrap() < new_len && !(old_len > 0 && new_len > old_len
            && selected.unwrap() == old_len - 1) ==> followed(selected, old_len, new_len)
            == selected,
        new_len > 0 && selected is None ==> followed(selected, old_len, new_len).unwrap() == new_len
            - 1,
{
}

/// A failed message is no longer on its way, can be tried again, and says what
/// it said.
pub proof fn failed_messages_can_be_retried(m: MessageV)
    ensures
        failed_message(m).failed,
        !failed_message(m).pending,
        failed_message(m).msg_actions.contains(MessageAction::Retry),
        forall|a: MessageAction| #[trigger]
            m.msg_actions.contains(a) ==> failed_message(m).msg_actions.contains(a),
        failed_message(m).text == m.text,
        failed_message(m).message_id == m.message_id,
        failed_message(m).chat == m.chat,
        failed_message(m).timestamp == m.timestamp,
        failed_message(m).reply_to_id == m.reply_to_id,
        failed_message(m).from_me == m.from_me,
{
    let r = failed_message(m).msg_actions;
    if !m.msg_actions.contains(MessageAction::Retry) {
        assert(r[r.len() - 1] == MessageAction::Retry);
        assert forall|a: MessageAction| #[trigger] m.msg_actions.contains(a) implies r.contains(
            a,
        ) by {
            let k = choose|k: int| 0 <= k < m.msg_actions.len() && m.msg_actions[k] == a;
            assert(r[k] == a);
        }
    }
}

/// Rows are one below and one above; they never leave the list at its top, and
/// without a selection down begins at the first row.
pub proof fn rows_are_one_apart(i: usize)
    ensures
        i < usize::MAX ==> row_below(Some(i)) == i + 1,
        i > 0 ==> row_above(Some(i)) == i - 1,
        row_above(Some(0)) == 0,
        row_below(None) == 0,
        i < usize::MAX ==> row_above(Some(row_below(Some(i)))) == i,
{
}

/// A selected row is that row; selecting none scrolls back to the top.
pub proof fn selections_are_kept(s: ListState, row: usize)
    ensures
        with_selected(s, Some(row)).selected == Some(row),
        with_selected(s, Some(row)).offset == s.offset,
        with_selected(s, None).selected is None,
        with_selected(s, None).offset == 0,
{
}

/// With a query a visible row stands for the row that matched; without one it
/// stands for itself. The field is shown while typing and while it holds a
/// query.
pub proof fn visible_rows_stand_for_rows(s: SearchV, idx: usize)
    ensures
        s.query.len() == 0 ==> source_row(s, idx as int) == Some(idx),
        s.query.len() > 0 && idx < s.visible.len() ==> source_row(s, idx as int) == Some(
            s.visible[idx as int],
        ),
        s.query.len() > 0 && idx >= s.visible.len() ==> source_row(s, idx as int) is None,
        search_active(s) <==> s.inserting || s.query.len() > 0,
{
}

/// A query shows exactly the chats whose names hold it, ignoring case and the
/// space around it, in the order of the list; a blank one shows all.
pub proof fn searches_show_the_matching_chats(
    st: ChatStateV,
    keep: Option<ChatIdV>,
    i: usize,
)
    requires
        st.chats.len() <= usize::MAX,
        i < st.chats.len(),
    ensures
        trimmed(st.search.query).len() > 0 ==> (searched(st, keep).search.visible.contains(i)
            <==> includes(
            lowercase(st.chats[i as int].contact_name),
            lowercase(trimmed(st.search.query)),
        )),
        trimmed(st.search.query).len() == 0 ==> searched(st, keep).search.visible.len() == 0,
        searched(st, keep).chats == st.chats,
        searched(st, keep).open_chat == st.open_chat,
        searched(st, keep).search.query == st.search.query,
        searched(st, keep).search.inserting == st.search.inserting,
{
    let ns = names(st.chats);
    let needle = needle_of(st.search.query);
    crate::tui::chat::matching_rows_are_rows(ns, needle);
    let rows = matching(ns, needle);
    assert(ns[i as int] == st.chats[i as int].contact_name);
    if rows.contains(i) {
        let k = choose|k: int| 0 <= k < rows.len() && rows[k] == i;
        assert(rows[k] < ns.len());
    }
}

/// A message search finds exactly the messages of the open chat whose text holds
/// the query, and selects one of them; with none it selects nothing.
pub proof fn message_searches_find_the_matching_messages(st: ChatStateV, i: usize)
    requires
        st.open_chat is Some,
        st.open_chat.unwrap().history.len() <= usize::MAX,
        i < st.open_chat.unwrap().history.len(),
        trimmed(st.message_search.query).len() > 0,
    ensures
        ({
            let st2 = message_searched(st);
            let found = st2.message_search.visible;
            let row = st2.message_list_state.selected;
            &&& found.contains(i) <==> includes(
                lowercase(st.open_chat.unwrap().history[i as int].text),
                lowercase(trimmed(st.message_search.query)),
            )
            &&& row is Some <==> found.len() > 0
            &&& row is Some ==> found.contains(row.unwrap())
            &&& st.message_list_state.selected is Some && found.contains(
                st.message_list_state.selected.unwrap(),
            ) ==> row == st.message_list_state.selected
            &&& !(st.message_list_state.selected is Some && found.contains(
                st.message_list_state.selected.unwrap(),
            )) && found.len() > 0 ==> row == Some(found[0])
            &&& st2.open_chat == st.open_chat
        }),
{
    let ts = texts(st.open_chat.unwrap().history);
    let needle = needle_of(st.message_search.query);
    crate::tui::chat::matching_rows_are_rows(ts, needle);
    let rows = matching(ts, needle);
    assert(ts[i as int] == st.open_chat.unwrap().history[i as int].text);
    if rows.contains(i) {
        let k = choose|k: int| 0 <= k < rows.len() && rows[k] == i;
        assert(rows[k] < ts.len());
    }
    if rows.len() > 0 {
        assert(rows.contains(rows[0]));
    }
}

/// An update that brings no later time leaves every row of the list in its place,
/// where the chat is not pinned.
pub proof fn old_updates_leave_the_order(chats: Seq<ChatV>, update: ChatV, i: int)
    requires
        0 <= i < deduped(chats).len(),
        deduped(chats)[i].id == update.id,
        !deduped(chats)[i].fixed,
        !update.fixed,
        update.last_message_ts is None || (deduped(chats)[i].last_message_ts is Some
            && update.last_message_ts.unwrap() <= deduped(chats)[i].last_message_ts.unwrap()),
    ensures
        upserted_list(chats, update).len() == deduped(chats).len(),
        forall|k: int|
            0 <= k < deduped(chats).len() ==> (#[trigger] upserted_list(chats, update)[k]).id
                == deduped(chats)[k].id,
        forall|k: int|
            0 <= k < deduped(chats).len() && k != i ==> #[trigger] upserted_list(chats, update)[k]
                == deduped(chats)[k],
{
    let rows = deduped(chats);
    let u = without_placeholder(update);
    let ids = chat_ids(rows);
    deduping_keeps_each_id_once(chats);
    first_of_is_least(ids, u.id);
    assert(ids[i] == u.id);
    let j = first_of(ids, u.id).unwrap();
    assert(rows[j].id == rows[i].id);
    assert(j == i);
    let row = merged_row(rows[i], u);
    let list = rows.update(i, row);
    assert forall|a: int, b: int| 0 <= a < b < list.len() implies list[a].id != list[b].id by {
        assert(rows[a].id != rows[b].id);
    }
    assert(distinct_ids(list));
    deduping_keeps_each_id_once(list);
}

/// A history that changes by itself keeps the matches of a search up to date, and
/// touches nothing without one.
pub proof fn matches_follow_the_history(st: ChatStateV, i: usize)
    requires
        st.open_chat is Some,
        st.open_chat.unwrap().history.len() <= usize::MAX,
        i < st.open_chat.unwrap().history.len(),
    ensures
        ({
            let after = message_rows_refreshed(st);
            let query = trimmed(st.message_search.query);
            let active = st.message_search.inserting || st.message_search.query.len() > 0;
            &&& !active ==> after == st
            &&& active && query.len() > 0 ==> (after.message_search.visible.contains(i)
                <==> includes(
                lowercase(st.open_chat.unwrap().history[i as int].text),
                lowercase(query),
            ))
            &&& active && query.len() == 0 ==> after.message_search.visible.len() == 0
            &&& after.message_list_state == st.message_list_state
            &&& after.open_chat == st.open_chat
            &&& after.message_search.query == st.message_search.query
        }),
{
    let ts = texts(st.open_chat.unwrap().history);
    let needle = needle_of(st.message_search.query);
    crate::tui::chat::matching_rows_are_rows(ts, needle);
    let rows = matching(ts, needle);
    assert(ts[i as int] == st.open_chat.unwrap().history[i as int].text);
    if rows.contains(i) {
        let k = choose|k: int| 0 <= k < rows.len() && rows[k] == i;
        assert(rows[k] < ts.len());
    }
}

}
