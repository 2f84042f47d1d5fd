//! Laws of the chat list and the open chat.
use vstd::prelude::*;

use crate::backend::{Chat, ChatIdV, ChatV, Message, MessageV, Provider};
use crate::order::{
    is_ordered, of_rank, ordered, ordering_is_stable, ordering_keeps_members, Ranked,
};
use crate::text::{includes, lowercase, trimmed};
use crate::tui::chat::matching_rows_are_rows;
use crate::tui::chat_model::{
    belongs, chat_ids, deduped, distinct_ids, failed_message, first_of, first_of_is_least,
    history_prepended, history_refreshed, is_newer, matching, merged_row, message_ids,
    message_rows_refreshed, names, needle_of, of_others, opened, reconciled, reconciled_list,
    search_cleared, searched, selected_chat_of, selected_id_of, unknown_messages, upserted,
    upserted_list, with_all_fetched, with_fetched, without_message, without_placeholder, ChatStateV,
};
use crate::tui::search::{no_search, source_row, SearchV};

verus! {

// Lists without repeated ids.

/// Dropping repeated ids leaves every id once, loses none, and changes
/// nothing where none is repeated.
pub proof fn deduping_keeps_each_id_once(s: Seq<ChatV>)
    ensures
        distinct_ids(deduped(s)),
        forall|id: ChatIdV| #[trigger]
            chat_ids(deduped(s)).contains(id) <==> chat_ids(s).contains(id),
        forall|c: ChatV| #[trigger] deduped(s).contains(c) ==> s.contains(c),
        distinct_ids(s) ==> deduped(s) == s,
    decreases s.len(),
{
    if s.len() > 0 {
        let d = s.drop_last();
        let r = deduped(d);
        let q = deduped(s);
        deduping_keeps_each_id_once(d);
        let x = s.last();
        assert(chat_ids(s) =~= chat_ids(d).push(x.id));
        assert forall|id: ChatIdV| #[trigger]
            chat_ids(q).contains(id) <==> chat_ids(s).contains(id) by {
            ids_of_push(r, x, id);
            ids_of_push(d, x, id);
            assert(d.push(x) =~= s);
        }
        assert forall|i: int, j: int| 0 <= i < j < q.len() implies (#[trigger] q[i]).id != (
        #[trigger] q[j]).id by {
            if !chat_ids(r).contains(x.id) && j == q.len() - 1 {
                assert(chat_ids(r)[i] == r[i].id);
            }
        }
        assert forall|c: ChatV| #[trigger] q.contains(c) implies s.contains(c) by {
            let i = choose|i: int| 0 <= i < q.len() && q[i] == c;
            if i < r.len() {
                assert(r[i] == c);
                assert(r.contains(c));
                let k = choose|k: int| 0 <= k < d.len() && d[k] == c;
                assert(s[k] == c);
            } else {
                assert(s[s.len() - 1] == c);
            }
        }
        if distinct_ids(s) {
            assert forall|i: int, j: int| 0 <= i < j < d.len() implies (#[trigger] d[i]).id != (
            #[trigger] d[j]).id by {
                assert(s[i].id != s[j].id);
            }
            if chat_ids(r).contains(x.id) {
                let k = choose|k: int| 0 <= k < chat_ids(r).len() && chat_ids(r)[k] == x.id;
                assert(s[k].id != s[s.len() - 1].id);
            }
            assert(q =~= s);
        }
    }
}

proof fn ids_of_push(s: Seq<ChatV>, x: ChatV, id: ChatIdV)
    ensures
        chat_ids(s.push(x)).contains(id) <==> chat_ids(s).contains(id) || x.id == id,
{
    let t = chat_ids(s.push(x));
    assert(t =~= chat_ids(s).push(x.id));
    if chat_ids(s).contains(id) {
        let k = choose|k: int| 0 <= k < chat_ids(s).len() && chat_ids(s)[k] == id;
        assert(t[k] == id);
    }
    if x.id == id {
        assert(t[t.len() - 1] == id);
    }
    if t.contains(id) {
        let k = choose|k: int| 0 <= k < t.len() && t[k] == id;
        if k < s.len() {
            assert(chat_ids(s)[k] == id);
        }
    }
}

proof fn id_in_iff_member(s: Seq<ChatV>, id: ChatIdV)
    ensures
        chat_ids(s).contains(id) <==> exists|c: ChatV| #[trigger] s.contains(c) && c.id == id,
{
    if chat_ids(s).contains(id) {
        let k = choose|k: int| 0 <= k < chat_ids(s).len() && chat_ids(s)[k] == id;
        assert(s.contains(s[k]) && s[k].id == id);
    }
    if exists|c: ChatV| #[trigger] s.contains(c) && c.id == id {
        let c = choose|c: ChatV| #[trigger] s.contains(c) && c.id == id;
        let k = choose|k: int| 0 <= k < s.len() && s[k] == c;
        assert(chat_ids(s)[k] == id);
    }
}

/// Ordering a list keeps its ids.
pub proof fn ordering_keeps_ids(s: Seq<ChatV>, id: ChatIdV)
    ensures
        chat_ids(ordered::<Chat>(s)).contains(id) <==> chat_ids(s).contains(id),
{
    id_in_iff_member(s, id);
    id_in_iff_member(ordered::<Chat>(s), id);
    if chat_ids(s).contains(id) {
        let c = choose|c: ChatV| #[trigger] s.contains(c) && c.id == id;
        ordering_keeps_members::<Chat>(s, c);
    }
    if chat_ids(ordered::<Chat>(s)).contains(id) {
        let c = choose|c: ChatV| #[trigger] ordered::<Chat>(s).contains(c) && c.id == id;
        ordering_keeps_members::<Chat>(s, c);
    }
}

proof fn ordering_keeps_distinct(s: Seq<ChatV>)
    requires
        distinct_ids(s),
    ensures
        distinct_ids(ordered::<Chat>(s)),
{
    let o = ordered::<Chat>(s);
    ordering_is_stable::<Chat>(s);
    assert forall|i: int, j: int| 0 <= i < j < o.len() implies (#[trigger] o[i]).id != (
    #[trigger] o[j]).id by {
        rearranged_ids_differ(s, o, i, j);
    }
}

proof fn rearranged_ids_differ(s: Seq<ChatV>, o: Seq<ChatV>, i: int, j: int)
    requires
        distinct_ids(s),
        s.to_multiset() == o.to_multiset(),
        0 <= i < j < o.len(),
    ensures
        o[i].id != o[j].id,
{
    broadcast use vstd::seq_lib::group_to_multiset_ensures;

    let a = o[i];
    let b = o[j];
    assert(o.contains(a) && o.contains(b));
    assert(s.to_multiset().count(a) > 0);
    assert(s.to_multiset().count(b) > 0);
    assert(s.contains(a) && s.contains(b));
    let k = choose|k: int| 0 <= k < s.len() && s[k] == a;
    let l = choose|l: int| 0 <= l < s.len() && s[l] == b;
    if k < l {
        assert(s[k].id != s[l].id);
    } else if l < k {
        assert(s[l].id != s[k].id);
    } else {
        assert(a == b);
        let p = o.remove(j);
        assert(p[i] == a);
        assert(p.contains(a));
        vstd::seq_lib::to_multiset_remove(o, j);
        assert(p.to_multiset().count(a) > 0);
        assert(o.to_multiset().count(a) >= 2);
        let t = s.remove(k);
        vstd::seq_lib::to_multiset_remove(s, k);
        assert(t.to_multiset().count(a) > 0);
        assert(t.contains(a));
        let m = choose|m: int| 0 <= m < t.len() && t[m] == a;
        let m2 = if m < k { m } else { m + 1 };
        assert(s[m2] == a);
        if m2 < k {
            assert(s[m2].id != s[k].id);
        } else {
            assert(s[k].id != s[m2].id);
        }
    }
}

// Updates of one chat.

/// An update leaves every id in the list once: those that were there, and the
/// updated chat's.
pub proof fn upsert_keeps_each_id_once(chats: Seq<ChatV>, update: ChatV)
    ensures
        distinct_ids(upserted_list(chats, update)),
        forall|id: ChatIdV| #[trigger]
            chat_ids(upserted_list(chats, update)).contains(id) <==> chat_ids(chats).contains(id)
                || id == update.id,
{
    let rows = deduped(chats);
    let u = without_placeholder(update);
    deduping_keeps_each_id_once(chats);
    first_of_is_least(chat_ids(rows), u.id);
    match first_of(chat_ids(rows), u.id) {
        Some(i) => {
            let row = merged_row(rows[i], u);
            let list = rows.update(i, row);
            assert(chat_ids(list) =~= chat_ids(rows));
            let end = if row.fixed || is_newer(u, rows[i]) {
                ordered::<Chat>(list)
            } else {
                list
            };
            deduping_keeps_each_id_once(end);
            assert forall|id: ChatIdV| #[trigger]
                chat_ids(upserted_list(chats, update)).contains(id) <==> chat_ids(chats).contains(
                    id,
                ) || id == update.id by {
                ordering_keeps_ids(list, id);
                assert(chat_ids(rows)[i] == u.id);
                assert(chat_ids(end).contains(id) <==> chat_ids(list).contains(id));
                assert(chat_ids(rows).contains(id) <==> chat_ids(chats).contains(id));
            }
        },
        None => {
            let list = rows.push(ChatV { scroll: 0, ..u });
            deduping_keeps_each_id_once(ordered::<Chat>(list));
            assert forall|id: ChatIdV| #[trigger]
                chat_ids(upserted_list(chats, update)).contains(id) <==> chat_ids(chats).contains(
                    id,
                ) || id == update.id by {
                ordering_keeps_ids(list, id);
                ids_of_push(rows, ChatV { scroll: 0, ..u }, id);
                assert(chat_ids(rows).contains(id) <==> chat_ids(chats).contains(id));
            }
        },
    }
}

/// An update never takes a verification mark or a pin away, never replaces a
/// name by an empty one, and never moves the message time back.
pub proof fn update_never_loses(row: ChatV, update: ChatV)
    ensures
        row.verified ==> merged_row(row, update).verified,
        row.fixed ==> merged_row(row, update).fixed,
        row.contact_name.len() > 0 ==> merged_row(row, update).contact_name.len() > 0,
        row.last_message_ts is Some ==> merged_row(row, update).last_message_ts is Some && merged_row(
            row,
            update,
        ).last_message_ts.unwrap() >= row.last_message_ts.unwrap(),
        merged_row(row, update).id == row.id,
        merged_row(row, update).scroll == row.scroll,
{
}

/// A placeholder name never reaches the list.
pub proof fn update_never_brings_a_placeholder(row: ChatV, update: ChatV)
    ensures
        merged_row(row, without_placeholder(update)).contact_name == row.contact_name || (merged_row(
            row,
            without_placeholder(update),
        ).contact_name != "Unknown"@ && merged_row(row, without_placeholder(update)).contact_name
            != "You"@),
{
    reveal_strlit("Unknown");
    reveal_strlit("You");
    assert("Unknown"@.len() == 7);
    assert("You"@.len() == 3);
}

// Selection.

proof fn row_of_id(st: ChatStateV, id: ChatIdV)
    requires
        st.chats.len() <= usize::MAX,
        chat_ids(st.chats).contains(id),
    ensures
        first_of(chat_ids(st.chats), id) is Some,
        st.chats[first_of(chat_ids(st.chats), id).unwrap()].id == id,
        0 <= first_of(chat_ids(st.chats), id).unwrap() < st.chats.len(),
{
    first_of_is_least(chat_ids(st.chats), id);
    let k = choose|k: int| 0 <= k < chat_ids(st.chats).len() && chat_ids(st.chats)[k] == id;
    assert(chat_ids(st.chats)[k] == id);
}

/// Without a query, working the filter out anew selects the chat to keep
/// wherever it now stands.
pub proof fn selection_follows_the_chat(st: ChatStateV, id: ChatIdV)
    requires
        st.search.query.len() == 0,
        st.chats.len() <= usize::MAX,
        chat_ids(st.chats).contains(id),
    ensures
        selected_id_of(searched(st, Some(id))) == Some(id),
{
    row_of_id(st, id);
}

/// With a query, the chat to keep stays selected where it still matches, and
/// otherwise the first match is selected.
pub proof fn filtered_selection_is_a_match(st: ChatStateV, keep: Option<ChatIdV>)
    requires
        trimmed(st.search.query).len() > 0,
        st.chats.len() <= usize::MAX,
        distinct_ids(st.chats),
    ensures
        match selected_chat_of(searched(st, keep)) {
            Some(c) => includes(lowercase(c.contact_name), needle_of(st.search.query)) && (keep is Some
                && (exists|k: int|
                0 <= k < st.chats.len() && (#[trigger] st.chats[k]).id == keep.unwrap() && includes(
                    lowercase(st.chats[k].contact_name),
                    needle_of(st.search.query),
                )) ==> c.id == keep.unwrap()),
            None => forall|k: int|
                0 <= k < st.chats.len() ==> !includes(
                    lowercase((#[trigger] st.chats[k]).contact_name),
                    needle_of(st.search.query),
                ),
        },
{
    crate::text::trimmed_is_empty_iff_blank(st.search.query);
    let needle = needle_of(st.search.query);
    let ns = names(st.chats);
    let rows = matching(ns, needle);
    matching_rows_are_rows(ns, needle);
    let row_ids = rows.map_values(|i: usize| st.chats[i as int].id);
    if keep is Some {
        first_of_is_least(row_ids, keep.unwrap());
    }
    let after = searched(st, keep);
    match selected_chat_of(after) {
        Some(c) => {
            let p = after.chat_list_state.selected.unwrap();
            assert(rows[p as int] < ns.len());
            assert(ns[rows[p as int] as int] == c.contact_name);
            if keep is Some && (exists|k: int|
                0 <= k < st.chats.len() && (#[trigger] st.chats[k]).id == keep.unwrap() && includes(
                    lowercase(st.chats[k].contact_name),
                    needle,
                )) {
                let k = choose|k: int|
                    0 <= k < st.chats.len() && (#[trigger] st.chats[k]).id == keep.unwrap() && includes(
                        lowercase(st.chats[k].contact_name),
                        needle,
                    );
                assert(ns[k] == st.chats[k].contact_name);
                assert(rows.contains(k as usize));
                let q = choose|q: int| 0 <= q < rows.len() && rows[q] == k as usize;
                assert(row_ids[q] == keep.unwrap());
                assert(first_of(row_ids, keep.unwrap()) is Some);
                assert(row_ids[p as int] == c.id);
            }
        },
        None => {
            assert forall|k: int| 0 <= k < st.chats.len() implies !includes(
                lowercase((#[trigger] st.chats[k]).contact_name),
                needle,
            ) by {
                if includes(lowercase(st.chats[k].contact_name), needle) {
                    assert(ns[k] == st.chats[k].contact_name);
                    assert(rows.contains(k as usize));
                    assert(rows.len() > 0);
                    let p = after.chat_list_state.selected.unwrap();
                    assert(rows[p as int] < ns.len());
                }
            }
        },
    }
}

/// Without a query, an update of any chat leaves the selected chat selected,
/// wherever the update moved it.
pub proof fn upsert_keeps_the_selected_chat(st: ChatStateV, update: ChatV, id: ChatIdV)
    requires
        st.search.query.len() == 0,
        distinct_ids(st.chats),
        st.chats.len() < usize::MAX,
        selected_id_of(st) == Some(id),
    ensures
        selected_id_of(upserted(st, update)) == Some(id),
{
    deduping_keeps_each_id_once(st.chats);
    upsert_keeps_each_id_once(st.chats, update);
    let sel = st.chat_list_state.selected.unwrap();
    assert(st.chats[source_row(st.search, sel as int).unwrap() as int].id == id);
    assert(chat_ids(st.chats)[source_row(st.search, sel as int).unwrap() as int] == id);
    assert(chat_ids(st.chats).contains(id));
    let st2 = ChatStateV { chats: upserted_list(st.chats, update), ..st };
    assert(ChatStateV { chats: deduped(st.chats), ..st } == st);
    upserted_len(st.chats, update);
    assert(chat_ids(st2.chats).contains(id));
    selection_follows_the_chat(st2, id);
}

proof fn upserted_len(chats: Seq<ChatV>, update: ChatV)
    ensures
        upserted_list(chats, update).len() <= chats.len() + 1,
{
    let rows = deduped(chats);
    let u = without_placeholder(update);
    deduped_len(chats);
    first_of_is_least(chat_ids(rows), u.id);
    match first_of(chat_ids(rows), u.id) {
        Some(i) => {
            let list = rows.update(i, merged_row(rows[i], u));
            ordering_is_stable::<Chat>(list);
            deduped_len(ordered::<Chat>(list));
            deduped_len(list);
        },
        None => {
            let list = rows.push(ChatV { scroll: 0, ..u });
            ordering_is_stable::<Chat>(list);
            deduped_len(ordered::<Chat>(list));
        },
    }
}

proof fn deduped_len(s: Seq<ChatV>)
    ensures
        deduped(s).len() <= s.len(),
    decreases s.len(),
{
    if s.len() > 0 {
        deduped_len(s.drop_last());
    }
}

/// Dropping the filter keeps the selected chat selected and leaves the whole
/// list visible.
pub proof fn clearing_keeps_the_selected_chat(st: ChatStateV, id: ChatIdV)
    requires
        selected_id_of(st) == Some(id),
        st.chats.len() <= usize::MAX,
    ensures
        selected_id_of(search_cleared(st)) == Some(id),
        search_cleared(st).search.query.len() == 0,
        search_cleared(st).chats == st.chats,
{
    let sel = st.chat_list_state.selected.unwrap();
    let src = source_row(st.search, sel as int).unwrap();
    assert(chat_ids(st.chats)[src as int] == id);
    let st2 = ChatStateV { search: SearchV { anchor: st.search.anchor, ..no_search() }, ..st };
    selection_follows_the_chat(st2, id);
}

/// Without a query every visible row stands for itself.
pub proof fn unfiltered_rows_are_source_rows(s: SearchV, idx: usize)
    requires
        s.query.len() == 0,
    ensures
        source_row(s, idx as int) == Some(idx),
{
}

// Complete lists.

/// An empty report of a provider changes nothing.
pub proof fn empty_report_changes_nothing(st: ChatStateV, p: Provider)
    ensures
        reconciled(st, p, Seq::empty()) == st,
{
}

proof fn of_others_ids(s: Seq<ChatV>, p: Provider, id: ChatIdV)
    ensures
        chat_ids(of_others(s, p)).contains(id) <==> chat_ids(s).contains(id) && !belongs(id, p),
    decreases s.len(),
{
    if s.len() > 0 {
        let d = s.drop_last();
        of_others_ids(d, p, id);
        ids_of_push(d, s.last(), id);
        ids_of_push(of_others(d, p), s.last(), id);
        assert(d.push(s.last()) =~= s);
    }
}

proof fn ids_of_concat(a: Seq<ChatV>, b: Seq<ChatV>, id: ChatIdV)
    ensures
        chat_ids(a + b).contains(id) <==> chat_ids(a).contains(id) || chat_ids(b).contains(id),
    decreases b.len(),
{
    if b.len() == 0 {
        assert(a + b =~= a);
    } else {
        ids_of_concat(a, b.drop_last(), id);
        assert((a + b.drop_last()).push(b.last()) =~= a + b);
        assert(b.drop_last().push(b.last()) =~= b);
        ids_of_push(a + b.drop_last(), b.last(), id);
        ids_of_push(b.drop_last(), b.last(), id);
    }
}

/// After a provider's complete report the list holds each id once and is in
/// order; the chats of other providers are all still there, and of this
/// provider exactly the reported ones are.
pub proof fn report_replaces_exactly_its_provider(
    chats: Seq<ChatV>,
    p: Provider,
    list: Seq<ChatV>,
    id: ChatIdV,
)
    ensures
        distinct_ids(reconciled_list(chats, p, list)),
        chat_ids(reconciled_list(chats, p, list)).contains(id) <==> (chat_ids(chats).contains(id)
            && !belongs(id, p)) || chat_ids(list).contains(id),
{
    let a = of_others(chats, p);
    let b = deduped(list);
    deduping_keeps_each_id_once(list);
    deduping_keeps_each_id_once(ordered::<Chat>(a + b));
    of_others_ids(chats, p, id);
    ids_of_concat(a, b, id);
    ordering_keeps_ids(a + b, id);
    assert(chat_ids(b).contains(id) <==> chat_ids(list).contains(id));
    assert(chat_ids(reconciled_list(chats, p, list)).contains(id) <==> chat_ids(
        ordered::<Chat>(a + b),
    ).contains(id));
}

/// Whether every chat of a list belongs to a provider.
pub open spec fn all_belong(list: Seq<ChatV>, p: Provider) -> bool {
    forall|i: int| 0 <= i < list.len() ==> belongs((#[trigger] list[i]).id, p)
}

proof fn of_others_members(s: Seq<ChatV>, p: Provider)
    ensures
        forall|i: int|
            0 <= i < of_others(s, p).len() ==> !belongs((#[trigger] of_others(s, p)[i]).id, p)
                && s.contains(of_others(s, p)[i]),
        distinct_ids(s) ==> distinct_ids(of_others(s, p)),
    decreases s.len(),
{
    if s.len() > 0 {
        let d = s.drop_last();
        let r = of_others(d, p);
        let q = of_others(s, p);
        of_others_members(d, p);
        assert forall|i: int| 0 <= i < q.len() implies !belongs((#[trigger] q[i]).id, p)
            && s.contains(q[i]) by {
            if i < r.len() {
                assert(q[i] == r[i]);
                assert(d.contains(r[i]));
                let k = choose|k: int| 0 <= k < d.len() && d[k] == r[i];
                assert(s[k] == q[i]);
            } else {
                assert(s[s.len() - 1] == q[i]);
            }
        }
        if distinct_ids(s) {
            assert forall|i: int, j: int| 0 <= i < j < d.len() implies (#[trigger] d[i]).id != (
            #[trigger] d[j]).id by {
                assert(s[i].id != s[j].id);
            }
            assert forall|i: int, j: int| 0 <= i < j < q.len() implies (#[trigger] q[i]).id != (
            #[trigger] q[j]).id by {
                assert(q[i] == r[i]);
                if j < r.len() {
                    assert(q[j] == r[j]);
                } else {
                    assert(d.contains(r[i]));
                    let k = choose|k: int| 0 <= k < d.len() && d[k] == r[i];
                    assert(s[k].id != s[s.len() - 1].id);
                }
            }
        }
    }
}

proof fn of_rank_concat(a: Seq<ChatV>, b: Seq<ChatV>, r: int)
    ensures
        of_rank::<Chat>(a + b, r) == of_rank::<Chat>(a, r) + of_rank::<Chat>(b, r),
    decreases b.len(),
{
    if b.len() == 0 {
        assert(a + b =~= a);
        assert(of_rank::<Chat>(a, r) + of_rank::<Chat>(b, r) =~= of_rank::<Chat>(a, r));
    } else {
        of_rank_concat(a, b.drop_last(), r);
        assert((a + b).drop_last() =~= a + b.drop_last());
        assert((a + b).last() == b.last());
        assert(of_rank::<Chat>(a + b, r) =~= of_rank::<Chat>(a, r) + of_rank::<Chat>(b, r));
    }
}

proof fn of_rank_of_others(s: Seq<ChatV>, p: Provider, r: int)
    ensures
        of_rank::<Chat>(of_others(s, p), r) == of_others(of_rank::<Chat>(s, r), p),
    decreases s.len(),
{
    if s.len() > 0 {
        let d = s.drop_last();
        of_rank_of_others(d, p, r);
        let x = s.last();
        assert(of_others(d, p).push(x).drop_last() =~= of_others(d, p));
        assert(of_rank::<Chat>(d, r).push(x).drop_last() =~= of_rank::<Chat>(d, r));
    }
}

proof fn of_others_concat(a: Seq<ChatV>, b: Seq<ChatV>, p: Provider)
    ensures
        of_others(a + b, p) == of_others(a, p) + of_others(b, p),
    decreases b.len(),
{
    if b.len() == 0 {
        assert(a + b =~= a);
        assert(of_others(a, p) + of_others(b, p) =~= of_others(a, p));
    } else {
        of_others_concat(a, b.drop_last(), p);
        assert((a + b).drop_last() =~= a + b.drop_last());
        assert((a + b).last() == b.last());
        assert(of_others(a + b, p) =~= of_others(a, p) + of_others(b, p));
    }
}

proof fn of_others_none(s: Seq<ChatV>, p: Provider)
    ensures
        all_belong(s, p) ==> of_others(s, p).len() == 0,
        (forall|i: int| 0 <= i < s.len() ==> !belongs((#[trigger] s[i]).id, p)) ==> of_others(s, p)
            == s,
    decreases s.len(),
{
    if s.len() > 0 {
        let d = s.drop_last();
        of_others_none(d, p);
        if all_belong(s, p) {
            assert forall|i: int| 0 <= i < d.len() implies belongs((#[trigger] d[i]).id, p) by {
                assert(d[i] == s[i]);
            }
            assert(belongs(s[s.len() - 1].id, p));
        }
        if forall|i: int| 0 <= i < s.len() ==> !belongs((#[trigger] s[i]).id, p) {
            assert forall|i: int| 0 <= i < d.len() implies !belongs((#[trigger] d[i]).id, p) by {
                assert(d[i] == s[i]);
            }
            assert(!belongs(s[s.len() - 1].id, p));
            assert(of_others(s, p) =~= s);
        }
    }
}

proof fn of_rank_members<T: Ranked>(s: Seq<T::V>, r: int)
    ensures
        forall|i: int|
            0 <= i < of_rank::<T>(s, r).len() ==> s.contains(#[trigger] of_rank::<T>(s, r)[i])
                && T::rank_of(of_rank::<T>(s, r)[i]) == r,
        s.len() > 0 && T::rank_of(s.last()) == r ==> of_rank::<T>(s, r).len() > 0 && of_rank::<T>(
            s,
            r,
        ).last() == s.last(),
    decreases s.len(),
{
    if s.len() > 0 {
        let d = s.drop_last();
        of_rank_members::<T>(d, r);
        let q = of_rank::<T>(s, r);
        let o = of_rank::<T>(d, r);
        assert forall|i: int| 0 <= i < q.len() implies s.contains(#[trigger] q[i]) && T::rank_of(
            q[i],
        ) == r by {
            if i < o.len() {
                assert(q[i] == o[i]);
                assert(d.contains(o[i]));
                let k = choose|k: int| 0 <= k < d.len() && d[k] == o[i];
                assert(s[k] == q[i]);
            } else {
                assert(s[s.len() - 1] == q[i]);
            }
        }
    }
}

proof fn ordered_lists_with_equal_ranks<T: Ranked>(a: Seq<T::V>, b: Seq<T::V>)
    requires
        is_ordered::<T>(a),
        is_ordered::<T>(b),
        forall|r: int| #[trigger] of_rank::<T>(a, r) == of_rank::<T>(b, r),
    ensures
        a == b,
    decreases a.len(),
{
    if a.len() == 0 {
        if b.len() > 0 {
            let r = T::rank_of(b.last());
            of_rank_members::<T>(b, r);
            assert(of_rank::<T>(a, r) == of_rank::<T>(b, r));
        }
        assert(a =~= b);
    } else {
        let ra = T::rank_of(a.last());
        of_rank_members::<T>(a, ra);
        assert(of_rank::<T>(a, ra) == of_rank::<T>(b, ra));
        of_rank_members::<T>(b, ra);
        let q = of_rank::<T>(b, ra);
        assert(b.contains(q[0]));
        let k = choose|k: int| 0 <= k < b.len() && b[k] == q[0];
        assert(T::rank_of(b[k]) <= T::rank_of(b[b.len() - 1]));
        let rb = T::rank_of(b.last());
        of_rank_members::<T>(b, rb);
        assert(of_rank::<T>(a, rb) == of_rank::<T>(b, rb));
        of_rank_members::<T>(a, rb);
        let q2 = of_rank::<T>(a, rb);
        assert(a.contains(q2[0]));
        let k2 = choose|k2: int| 0 <= k2 < a.len() && a[k2] == q2[0];
        assert(T::rank_of(a[k2]) <= T::rank_of(a[a.len() - 1]));
        assert(ra == rb);
        assert(a.last() == b.last());
        let a2 = a.drop_last();
        let b2 = b.drop_last();
        assert forall|r: int| #[trigger] of_rank::<T>(a2, r) == of_rank::<T>(b2, r) by {
            assert(of_rank::<T>(a, r) == of_rank::<T>(b, r));
            if r == ra {
                assert(of_rank::<T>(a, r).drop_last() =~= of_rank::<T>(a2, r));
                assert(of_rank::<T>(b, r).drop_last() =~= of_rank::<T>(b2, r));
            }
        }
        assert(is_ordered::<T>(a2));
        assert(is_ordered::<T>(b2));
        ordered_lists_with_equal_ranks::<T>(a2, b2);
        assert(a =~= a2.push(a.last()));
        assert(b =~= b2.push(b.last()));
    }
}

/// Where ids were not repeated, and the report speaks of its own provider
/// alone, the list after it is the stable ordering of the others' chats and
/// the reported ones.
pub proof fn report_list_is_ordered(chats: Seq<ChatV>, p: Provider, list: Seq<ChatV>)
    requires
        distinct_ids(chats),
        all_belong(list, p),
    ensures
        reconciled_list(chats, p, list) == ordered::<Chat>(of_others(chats, p) + deduped(list)),
        is_ordered::<Chat>(reconciled_list(chats, p, list)),
{
    let a = of_others(chats, p);
    let b = deduped(list);
    of_others_members(chats, p);
    deduping_keeps_each_id_once(list);
    let s = a + b;
    assert forall|i: int, j: int| 0 <= i < j < s.len() implies (#[trigger] s[i]).id != (
    #[trigger] s[j]).id by {
        if j < a.len() {
            assert(a[i].id != a[j].id);
        } else if i >= a.len() {
            assert(b[i - a.len()].id != b[j - a.len()].id);
        } else {
            assert(!belongs(a[i].id, p));
            assert(b.contains(b[j - a.len()]));
            assert(list.contains(b[j - a.len()]));
            let k = choose|k: int| 0 <= k < list.len() && list[k] == b[j - a.len()];
            assert(belongs(list[k].id, p));
        }
    }
    ordering_keeps_distinct(s);
    deduping_keeps_each_id_once(ordered::<Chat>(s));
    ordering_is_stable::<Chat>(s);
}

/// The chats that belong to a provider.
pub open spec fn of_its(s: Seq<ChatV>, p: Provider) -> Seq<ChatV>
    decreases s.len(),
{
    if s.len() == 0 {
        s
    } else {
        let rest = of_its(s.drop_last(), p);
        if belongs(s.last().id, p) {
            rest.push(s.last())
        } else {
            rest
        }
    }
}

proof fn of_its_members(s: Seq<ChatV>, p: Provider)
    ensures
        forall|c: ChatV| #[trigger]
            of_its(s, p).contains(c) <==> s.contains(c) && belongs(c.id, p),
        all_belong(s, p) ==> of_its(s, p) == s,
        (forall|i: int| 0 <= i < s.len() ==> !belongs((#[trigger] s[i]).id, p)) ==> of_its(s, p).len()
            == 0,
        is_ordered::<Chat>(s) ==> is_ordered::<Chat>(of_its(s, p)),
    decreases s.len(),
{
    if s.len() > 0 {
        let d = s.drop_last();
        let x = s.last();
        let r = of_its(d, p);
        let q = of_its(s, p);
        of_its_members(d, p);
        assert(s =~= d.push(x));
        assert forall|c: ChatV| #[trigger]
            q.contains(c) <==> s.contains(c) && belongs(c.id, p) by {
            if q.contains(c) {
                let k = choose|k: int| 0 <= k < q.len() && q[k] == c;
                if k < r.len() {
                    assert(r[k] == c);
                    assert(r.contains(c));
                    let l = choose|l: int| 0 <= l < d.len() && d[l] == c;
                    assert(s[l] == c);
                } else {
                    assert(s[s.len() - 1] == c);
                }
            }
            if s.contains(c) && belongs(c.id, p) {
                let k = choose|k: int| 0 <= k < s.len() && s[k] == c;
                if k < d.len() {
                    assert(d[k] == c);
                    assert(r.contains(c));
                    let l = choose|l: int| 0 <= l < r.len() && r[l] == c;
                    assert(q[l] == c);
                } else {
                    assert(q[q.len() - 1] == c);
                }
            }
        }
        if all_belong(s, p) {
            assert forall|i: int| 0 <= i < d.len() implies belongs((#[trigger] d[i]).id, p) by {
                assert(d[i] == s[i]);
            }
            assert(belongs(s[s.len() - 1].id, p));
            assert(q =~= s);
        }
        if forall|i: int| 0 <= i < s.len() ==> !belongs((#[trigger] s[i]).id, p) {
            assert forall|i: int| 0 <= i < d.len() implies !belongs((#[trigger] d[i]).id, p) by {
                assert(d[i] == s[i]);
            }
            assert(!belongs(s[s.len() - 1].id, p));
        }
        if is_ordered::<Chat>(s) {
            assert forall|i: int, j: int| 0 <= i <= j < d.len() implies Chat::rank_of(
                #[trigger] d[i],
            ) <= Chat::rank_of(#[trigger] d[j]) by {
                assert(d[i] == s[i] && d[j] == s[j]);
            }
            assert forall|i: int, j: int| 0 <= i <= j < q.len() implies Chat::rank_of(
                #[trigger] q[i],
            ) <= Chat::rank_of(#[trigger] q[j]) by {
                if j < r.len() {
                    assert(q[i] == r[i] && q[j] == r[j]);
                } else if i < r.len() {
                    assert(r.contains(r[i]));
                    let l = choose|l: int| 0 <= l < d.len() && d[l] == r[i];
                    assert(Chat::rank_of(s[l]) <= Chat::rank_of(s[s.len() - 1]));
                }
            }
        }
    }
}

proof fn of_its_concat(a: Seq<ChatV>, b: Seq<ChatV>, p: Provider)
    ensures
        of_its(a + b, p) == of_its(a, p) + of_its(b, p),
    decreases b.len(),
{
    if b.len() == 0 {
        assert(a + b =~= a);
        assert(of_its(a, p) + of_its(b, p) =~= of_its(a, p));
    } else {
        of_its_concat(a, b.drop_last(), p);
        assert((a + b).drop_last() =~= a + b.drop_last());
        assert((a + b).last() == b.last());
        assert(of_its(a + b, p) =~= of_its(a, p) + of_its(b, p));
    }
}

proof fn of_rank_of_its(s: Seq<ChatV>, p: Provider, r: int)
    ensures
        of_rank::<Chat>(of_its(s, p), r) == of_its(of_rank::<Chat>(s, r), p),
    decreases s.len(),
{
    if s.len() > 0 {
        let d = s.drop_last();
        of_rank_of_its(d, p, r);
        let x = s.last();
        assert(of_its(d, p).push(x).drop_last() =~= of_its(d, p));
        assert(of_rank::<Chat>(d, r).push(x).drop_last() =~= of_rank::<Chat>(d, r));
    }
}

/// Whether the chats of a provider stand behind all others.
spec fn others_first(s: Seq<ChatV>, p: Provider) -> bool {
    forall|i: int, j: int|
        0 <= i < j < s.len() && belongs((#[trigger] s[i]).id, p) ==> belongs(
            (#[trigger] s[j]).id,
            p,
        )
}

proof fn parted(s: Seq<ChatV>, p: Provider)
    requires
        others_first(s, p),
    ensures
        s == of_others(s, p) + of_its(s, p),
    decreases s.len(),
{
    if s.len() > 0 {
        let d = s.drop_last();
        let x = s.last();
        assert forall|i: int, j: int|
            0 <= i < j < d.len() && belongs((#[trigger] d[i]).id, p) implies belongs(
            (#[trigger] d[j]).id,
            p,
        ) by {
            assert(d[i] == s[i] && d[j] == s[j]);
        }
        parted(d, p);
        assert(s =~= d.push(x));
        if !belongs(x.id, p) {
            assert forall|i: int| 0 <= i < d.len() implies !belongs((#[trigger] d[i]).id, p) by {
                assert(d[i] == s[i]);
                if belongs(s[i].id, p) {
                    assert(belongs(s[s.len() - 1].id, p));
                }
            }
            of_its_members(d, p);
            of_others_none(d, p);
        }
        assert(s =~= of_others(s, p) + of_its(s, p));
    } else {
        assert(s =~= of_others(s, p) + of_its(s, p));
    }
}

proof fn deduping_keeps_others_first(s: Seq<ChatV>, p: Provider, r: int)
    requires
        others_first(of_rank::<Chat>(s, r), p),
    ensures
        others_first(of_rank::<Chat>(deduped(s), r), p),
        forall|i: int|
            0 <= i < of_rank::<Chat>(deduped(s), r).len() ==> of_rank::<Chat>(s, r).contains(
                #[trigger] of_rank::<Chat>(deduped(s), r)[i],
            ),
    decreases s.len(),
{
    if s.len() > 0 {
        let d = s.drop_last();
        let x = s.last();
        let whole = of_rank::<Chat>(s, r);
        let part = of_rank::<Chat>(d, r);
        assert forall|i: int, j: int|
            0 <= i < j < part.len() && belongs((#[trigger] part[i]).id, p) implies belongs(
            (#[trigger] part[j]).id,
            p,
        ) by {
            assert(part[i] == whole[i] && part[j] == whole[j]);
        }
        deduping_keeps_others_first(d, p, r);
        let kept = of_rank::<Chat>(deduped(d), r);
        let all = of_rank::<Chat>(deduped(s), r);
        assert(deduped(d).push(x).drop_last() =~= deduped(d));
        assert forall|i: int| 0 <= i < all.len() implies whole.contains(#[trigger] all[i]) by {
            if i < kept.len() {
                assert(part.contains(kept[i]));
                let k = choose|k: int| 0 <= k < part.len() && part[k] == kept[i];
                assert(whole[k] == all[i]);
            } else {
                assert(whole[whole.len() - 1] == all[i]);
            }
        }
        assert forall|i: int, j: int|
            0 <= i < j < all.len() && belongs((#[trigger] all[i]).id, p) implies belongs(
            (#[trigger] all[j]).id,
            p,
        ) by {
            if j < kept.len() {
                assert(all[i] == kept[i] && all[j] == kept[j]);
            } else {
                assert(part.contains(kept[i]));
                let k = choose|k: int| 0 <= k < part.len() && part[k] == kept[i];
                assert(belongs(whole[k].id, p));
                assert(belongs(whole[whole.len() - 1].id, p));
            }
        }
    }
}

proof fn deduping_keeps_order(s: Seq<ChatV>)
    requires
        is_ordered::<Chat>(s),
    ensures
        is_ordered::<Chat>(deduped(s)),
    decreases s.len(),
{
    if s.len() > 0 {
        let d = s.drop_last();
        let r = deduped(d);
        let q = deduped(s);
        assert(is_ordered::<Chat>(d)) by {
            assert forall|i: int, j: int| 0 <= i <= j < d.len() implies Chat::rank_of(
                #[trigger] d[i],
            ) <= Chat::rank_of(#[trigger] d[j]) by {
                assert(d[i] == s[i] && d[j] == s[j]);
            }
        }
        deduping_keeps_order(d);
        deduping_keeps_each_id_once(d);
        assert forall|i: int, j: int| 0 <= i <= j < q.len() implies Chat::rank_of(#[trigger] q[i])
            <= Chat::rank_of(#[trigger] q[j]) by {
            if j < r.len() {
                assert(q[i] == r[i] && q[j] == r[j]);
            } else if i < r.len() {
                assert(r.contains(r[i]));
                assert(d.contains(r[i]));
                let l = choose|l: int| 0 <= l < d.len() && d[l] == r[i];
                assert(Chat::rank_of(s[l]) <= Chat::rank_of(s[s.len() - 1]));
            }
        }
    }
}

proof fn deduping_keeps_its_chats(s: Seq<ChatV>, p: Provider)
    requires
        distinct_ids(of_its(s, p)),
    ensures
        of_its(deduped(s), p) == of_its(s, p),
    decreases s.len(),
{
    if s.len() > 0 {
        let d = s.drop_last();
        let x = s.last();
        let q = of_its(s, p);
        let r = of_its(d, p);
        assert forall|i: int, j: int| 0 <= i < j < r.len() implies (#[trigger] r[i]).id != (
        #[trigger] r[j]).id by {
            assert(r[i] == q[i] && r[j] == q[j]);
        }
        deduping_keeps_its_chats(d, p);
        deduping_keeps_each_id_once(d);
        assert(deduped(d).push(x).drop_last() =~= deduped(d));
        if belongs(x.id, p) && chat_ids(deduped(d)).contains(x.id) {
            let ids = chat_ids(deduped(d));
            let k = choose|k: int| 0 <= k < ids.len() && ids[k] == x.id;
            let y = deduped(d)[k];
            assert(deduped(d).contains(y));
            assert(d.contains(y));
            of_its_members(d, p);
            assert(r.contains(y));
            let l = choose|l: int| 0 <= l < r.len() && r[l] == y;
            assert(q[l].id != q[q.len() - 1].id);
        }
    }
}

/// Reporting the same list again changes nothing, whatever the list held
/// before.
pub proof fn repeated_report_changes_nothing(chats: Seq<ChatV>, p: Provider, list: Seq<ChatV>)
    requires
        all_belong(list, p),
    ensures
        reconciled_list(reconciled_list(chats, p, list), p, list) == reconciled_list(
            chats,
            p,
            list,
        ),
{
    let a = of_others(chats, p);
    let b = deduped(list);
    let o = ordered::<Chat>(a + b);
    let once = reconciled_list(chats, p, list);
    of_others_members(chats, p);
    deduping_keeps_each_id_once(list);
    reported_chats(list, p);
    ordering_is_stable::<Chat>(a + b);
    ordering_is_stable::<Chat>(b);
    // The reported chats all stay, in their order.
    of_its_members(a, p);
    of_its_members(b, p);
    of_its_concat(a, b, p);
    assert(of_its(a + b, p) =~= b);
    of_its_members(o, p);
    assert forall|r: int| #[trigger] of_rank::<Chat>(of_its(o, p), r) == of_rank::<Chat>(
        ordered::<Chat>(b),
        r,
    ) by {
        of_rank_of_its(o, p, r);
        of_rank_of_its(a + b, p, r);
        assert(of_rank::<Chat>(o, r) == of_rank::<Chat>(a + b, r));
        assert(of_rank::<Chat>(ordered::<Chat>(b), r) == of_rank::<Chat>(b, r));
    }
    ordered_lists_with_equal_ranks::<Chat>(of_its(o, p), ordered::<Chat>(b));
    ordering_keeps_distinct(b);
    deduping_keeps_its_chats(o, p);
    // The list is what ordering the others and the reported chats gives.
    deduping_keeps_order(o);
    deduping_keeps_each_id_once(o);
    let c = of_others(once, p);
    report_list_is_ordered(once, p, list);
    let twice = reconciled_list(once, p, list);
    ordering_is_stable::<Chat>(c + b);
    assert forall|r: int| #[trigger] of_rank::<Chat>(once, r) == of_rank::<Chat>(twice, r) by {
        let u = of_rank::<Chat>(once, r);
        let v = of_rank::<Chat>(o, r);
        of_rank_concat(a, b, r);
        of_rank_members::<Chat>(a, r);
        of_rank_members::<Chat>(b, r);
        assert(others_first(v, p)) by {
            let x = of_rank::<Chat>(a, r);
            let y = of_rank::<Chat>(b, r);
            assert(v =~= x + y);
            assert forall|i: int, j: int|
                0 <= i < j < v.len() && belongs((#[trigger] v[i]).id, p) implies belongs(
                (#[trigger] v[j]).id,
                p,
            ) by {
                if i < x.len() {
                    assert(v[i] == x[i]);
                    assert(a.contains(x[i]));
                    let k = choose|k: int| 0 <= k < a.len() && a[k] == x[i];
                    assert(!belongs(a[k].id, p));
                }
                assert(v[j] == y[j - x.len()]);
                assert(b.contains(y[j - x.len()]));
                let k = choose|k: int| 0 <= k < b.len() && b[k] == y[j - x.len()];
                assert(belongs(b[k].id, p));
            }
        }
        deduping_keeps_others_first(o, p, r);
        parted(u, p);
        of_rank_of_others(once, p, r);
        of_rank_of_its(once, p, r);
        assert(of_rank::<Chat>(ordered::<Chat>(b), r) == of_rank::<Chat>(b, r));
        of_rank_concat(c, b, r);
        assert(of_rank::<Chat>(twice, r) == of_rank::<Chat>(c + b, r));
    }
    ordered_lists_with_equal_ranks::<Chat>(once, twice);
}

/// A provider that reports the same chats a second time leaves the chat list as
/// it is.
pub proof fn unchanged_report_leaves_the_list(st: ChatStateV, p: Provider, list: Seq<ChatV>)
    requires
        all_belong(list, p),
    ensures
        reconciled(reconciled(st, p, list), p, list).chats == reconciled(st, p, list).chats,
{
    repeated_report_changes_nothing(st.chats, p, list);
}

/// Whether no chat of one list has the place of a chat of the other.
pub open spec fn never_level(a: Seq<ChatV>, b: Seq<ChatV>) -> bool {
    forall|i: int, j: int|
        0 <= i < a.len() && 0 <= j < b.len() ==> Chat::rank_of(#[trigger] a[i]) != Chat::rank_of(
            #[trigger] b[j],
        )
}

proof fn reported_chats(list: Seq<ChatV>, p: Provider)
    requires
        all_belong(list, p),
    ensures
        all_belong(deduped(list), p),
        forall|i: int|
            0 <= i < deduped(list).len() ==> list.contains(#[trigger] deduped(list)[i]),
{
    let b = deduped(list);
    deduping_keeps_each_id_once(list);
    assert forall|i: int| 0 <= i < b.len() implies belongs((#[trigger] b[i]).id, p)
        && list.contains(b[i]) by {
        assert(b.contains(b[i]));
        assert(list.contains(b[i]));
        let k = choose|k: int| 0 <= k < list.len() && list[k] == b[i];
        assert(belongs(list[k].id, p));
    }
}

proof fn two_reports(
    chats: Seq<ChatV>,
    p: Provider,
    la: Seq<ChatV>,
    q: Provider,
    lb: Seq<ChatV>,
    r: int,
)
    requires
        distinct_ids(chats),
        p != q,
        all_belong(la, p),
        all_belong(lb, q),
    ensures
        of_rank::<Chat>(reconciled_list(reconciled_list(chats, p, la), q, lb), r) == of_rank::<Chat>(
            of_others(of_others(chats, p), q),
            r,
        ) + of_rank::<Chat>(deduped(la), r) + of_rank::<Chat>(deduped(lb), r),
        is_ordered::<Chat>(reconciled_list(reconciled_list(chats, p, la), q, lb)),
{
    let a = of_others(chats, p);
    let b = deduped(la);
    let c = deduped(lb);
    let once = reconciled_list(chats, p, la);
    report_list_is_ordered(chats, p, la);
    report_replaces_exactly_its_provider(chats, p, la, ChatIdV::Myself);
    report_list_is_ordered(once, q, lb);
    reported_chats(la, p);
    assert forall|i: int| 0 <= i < b.len() implies !belongs((#[trigger] b[i]).id, q) by {
        assert(belongs(b[i].id, p));
    }
    of_others_none(b, q);
    ordering_is_stable::<Chat>(a + b);
    ordering_is_stable::<Chat>(of_others(once, q) + c);
    of_rank_concat(of_others(once, q), c, r);
    of_rank_of_others(once, q, r);
    of_rank_of_others(a + b, q, r);
    of_others_concat(a, b, q);
    of_rank_concat(of_others(a, q), b, r);
    assert(of_rank::<Chat>(once, r) == of_rank::<Chat>(a + b, r));
}

proof fn others_of_both(s: Seq<ChatV>, p: Provider, q: Provider)
    ensures
        of_others(of_others(s, p), q) == of_others(of_others(s, q), p),
    decreases s.len(),
{
    if s.len() > 0 {
        let d = s.drop_last();
        let x = s.last();
        others_of_both(d, p, q);
        assert(of_others(d, p).push(x).drop_last() =~= of_others(d, p));
        assert(of_others(d, q).push(x).drop_last() =~= of_others(d, q));
    }
}

/// Which of two providers reported first makes no difference to the list,
/// where no chat of one has the place of a chat of the other.
pub proof fn report_order_is_independent_of_arrival(
    chats: Seq<ChatV>,
    p: Provider,
    la: Seq<ChatV>,
    q: Provider,
    lb: Seq<ChatV>,
)
    requires
        distinct_ids(chats),
        p != q,
        all_belong(la, p),
        all_belong(lb, q),
        never_level(la, lb),
    ensures
        reconciled_list(reconciled_list(chats, p, la), q, lb) == reconciled_list(
            reconciled_list(chats, q, lb),
            p,
            la,
        ),
{
    let x = reconciled_list(reconciled_list(chats, p, la), q, lb);
    let y = reconciled_list(reconciled_list(chats, q, lb), p, la);
    let b = deduped(la);
    let c = deduped(lb);
    others_of_both(chats, p, q);
    reported_chats(la, p);
    reported_chats(lb, q);
    two_reports(chats, p, la, q, lb, 0);
    two_reports(chats, q, lb, p, la, 0);
    assert forall|r: int| #[trigger] of_rank::<Chat>(x, r) == of_rank::<Chat>(y, r) by {
        two_reports(chats, p, la, q, lb, r);
        two_reports(chats, q, lb, p, la, r);
        of_rank_members::<Chat>(b, r);
        of_rank_members::<Chat>(c, r);
        let u = of_rank::<Chat>(b, r);
        let v = of_rank::<Chat>(c, r);
        if u.len() > 0 && v.len() > 0 {
            assert(b.contains(u[0]) && c.contains(v[0]));
            let i = choose|i: int| 0 <= i < b.len() && b[i] == u[0];
            let j = choose|j: int| 0 <= j < c.len() && c[j] == v[0];
            assert(la.contains(b[i]) && lb.contains(c[j]));
            let k = choose|k: int| 0 <= k < la.len() && la[k] == b[i];
            let l = choose|l: int| 0 <= l < lb.len() && lb[l] == c[j];
            assert(Chat::rank_of(la[k]) != Chat::rank_of(lb[l]));
        }
        let n = of_rank::<Chat>(of_others(of_others(chats, p), q), r);
        assert(n + u + v =~= n + v + u);
    }
    ordered_lists_with_equal_ranks::<Chat>(x, y);
}

// The open chat.

/// Marking a message as failed twice is marking it once.
pub proof fn failing_twice_is_failing_once(m: MessageV)
    ensures
        failed_message(failed_message(m)) == failed_message(m),
{
    let a = m.msg_actions.push(crate::backend::MessageAction::Retry);
    assert(a[a.len() - 1] == crate::backend::MessageAction::Retry);
    assert(a.contains(crate::backend::MessageAction::Retry));
}

/// A change of the history by itself never moves the selection.
pub proof fn background_changes_keep_the_selection(st: ChatStateV)
    ensures
        message_rows_refreshed(st).message_list_state == st.message_list_state,
        message_rows_refreshed(st).chat_list_state == st.chat_list_state,
        message_rows_refreshed(st).open_chat == st.open_chat,
{
}

/// No message with a removed id is left, and every other one is.
pub proof fn removal_is_exact(s: Seq<MessageV>, id: Seq<char>, m: MessageV)
    ensures
        without_message(s, id).contains(m) <==> s.contains(m) && m.message_id != id,
    decreases s.len(),
{
    if s.len() > 0 {
        let d = s.drop_last();
        let r = without_message(d, id);
        let q = without_message(s, id);
        removal_is_exact(d, id, m);
        if q.contains(m) {
            let i = choose|i: int| 0 <= i < q.len() && q[i] == m;
            if i < r.len() {
                assert(r[i] == m);
                assert(r.contains(m));
                let k = choose|k: int| 0 <= k < d.len() && d[k] == m;
                assert(s[k] == m);
            } else {
                assert(s[s.len() - 1] == m);
            }
        }
        if s.contains(m) && m.message_id != id {
            let k = choose|k: int| 0 <= k < s.len() && s[k] == m;
            if k < d.len() {
                assert(d[k] == m);
                assert(r.contains(m));
                let i = choose|i: int| 0 <= i < r.len() && r[i] == m;
                assert(q[i] == m);
            } else {
                assert(q[q.len() - 1] == m);
            }
        }
    }
}

proof fn fetched_ids(h: Seq<MessageV>, list: Seq<MessageV>, id: Seq<char>)
    ensures
        message_ids(with_all_fetched(h, list)).contains(id) <==> message_ids(h).contains(id)
            || message_ids(list).contains(id),
        with_all_fetched(h, list).len() >= h.len(),
    decreases list.len(),
{
    if list.len() > 0 {
        let d = list.drop_last();
        let x = list.last();
        let g = with_all_fetched(h, d);
        fetched_ids(h, d, id);
        assert(message_ids(list) =~= message_ids(d).push(x.message_id));
        first_of_is_least(message_ids(g), x.message_id);
        let l = message_ids(list);
        if message_ids(d).contains(id) {
            let k = choose|k: int| 0 <= k < message_ids(d).len() && message_ids(d)[k] == id;
            assert(l[k] == id);
        }
        if x.message_id == id {
            assert(l[l.len() - 1] == id);
        }
        if l.contains(id) {
            let k = choose|k: int| 0 <= k < l.len() && l[k] == id;
            if k < d.len() {
                assert(message_ids(d)[k] == id);
            }
        }
        match first_of(message_ids(g), x.message_id) {
            Some(i) => {
                assert(message_ids(with_fetched(g, x)) =~= message_ids(g));
                assert(message_ids(g)[i] == x.message_id);
            },
            None => {
                let f = message_ids(with_fetched(g, x));
                assert(f =~= message_ids(g).push(x.message_id));
                if message_ids(g).contains(id) {
                    let k = choose|k: int| 0 <= k < message_ids(g).len() && message_ids(g)[k] == id;
                    assert(f[k] == id);
                }
                if x.message_id == id {
                    assert(f[f.len() - 1] == id);
                }
                if f.contains(id) {
                    let k = choose|k: int| 0 <= k < f.len() && f[k] == id;
                    if k < g.len() {
                        assert(message_ids(g)[k] == id);
                    }
                }
            },
        }
    }
}

proof fn ordering_keeps_message_ids(s: Seq<MessageV>, id: Seq<char>)
    ensures
        message_ids(ordered::<Message>(s)).contains(id) <==> message_ids(s).contains(id),
{
    let o = ordered::<Message>(s);
    if message_ids(s).contains(id) {
        let k = choose|k: int| 0 <= k < message_ids(s).len() && message_ids(s)[k] == id;
        ordering_keeps_members::<Message>(s, s[k]);
        assert(s.contains(s[k]));
        let j = choose|j: int| 0 <= j < o.len() && o[j] == s[k];
        assert(message_ids(o)[j] == id);
    }
    if message_ids(o).contains(id) {
        let k = choose|k: int| 0 <= k < message_ids(o).len() && message_ids(o)[k] == id;
        ordering_keeps_members::<Message>(s, o[k]);
        assert(o.contains(o[k]));
        let j = choose|j: int| 0 <= j < s.len() && s[j] == o[k];
        assert(message_ids(s)[j] == id);
    }
}

/// Fetching the open chat anew loses no message, brings in every fetched one,
/// leaves the history in time order, and keeps the selection within it.
pub proof fn refresh_loses_no_message(
    st: ChatStateV,
    chat: ChatIdV,
    list: Seq<MessageV>,
    id: Seq<char>,
)
    requires
        opened(st, chat),
        st.open_chat.unwrap().history.len() + list.len() <= usize::MAX,
    ensures
        opened(history_refreshed(st, chat, list), chat),
        message_ids(history_refreshed(st, chat, list).open_chat.unwrap().history).contains(id)
            <==> message_ids(st.open_chat.unwrap().history).contains(id) || message_ids(
            list,
        ).contains(id),
        is_ordered::<Message>(history_refreshed(st, chat, list).open_chat.unwrap().history),
        history_refreshed(st, chat, list).open_chat.unwrap().history.len()
            >= st.open_chat.unwrap().history.len(),
        match history_refreshed(st, chat, list).message_list_state.selected {
            Some(i) => i < history_refreshed(st, chat, list).open_chat.unwrap().history.len(),
            None => history_refreshed(st, chat, list).open_chat.unwrap().history.len() == 0,
        },
{
    let old = st.open_chat.unwrap().history;
    let merged = with_all_fetched(old, list);
    fetched_ids(old, list, id);
    fetched_len(old, list);
    ordering_is_stable::<Message>(merged);
    ordering_keeps_message_ids(merged, id);
}

proof fn fetched_len(h: Seq<MessageV>, list: Seq<MessageV>)
    ensures
        with_all_fetched(h, list).len() <= h.len() + list.len(),
    decreases list.len(),
{
    if list.len() > 0 {
        let g = with_all_fetched(h, list.drop_last());
        fetched_len(h, list.drop_last());
        first_of_is_least(message_ids(g), list.last().message_id);
    }
}

/// Older messages come in without losing one, in time order, and the
/// selection stays within the history.
pub proof fn prepending_loses_no_message(
    st: ChatStateV,
    chat: ChatIdV,
    older: Seq<MessageV>,
    m: MessageV,
)
    requires
        opened(st, chat),
        st.open_chat.unwrap().history.len() + older.len() <= usize::MAX,
        unknown_messages(older, st.open_chat.unwrap().history).len() > 0,
        st.open_chat.unwrap().history.contains(m),
    ensures
        history_prepended(st, chat, older).open_chat.unwrap().history.contains(m),
        is_ordered::<Message>(history_prepended(st, chat, older).open_chat.unwrap().history),
        history_prepended(st, chat, older).message_list_state.selected is Some,
        history_prepended(st, chat, older).message_list_state.selected.unwrap()
            < history_prepended(st, chat, older).open_chat.unwrap().history.len(),
{
    let old = st.open_chat.unwrap().history;
    let more = unknown_messages(older, old);
    ordering_is_stable::<Message>(more + old);
    let k = choose|k: int| 0 <= k < old.len() && old[k] == m;
    assert((more + old)[more.len() + k] == m);
    ordering_keeps_members::<Message>(more + old, m);
    unknown_len(older, old);
}

proof fn unknown_len(older: Seq<MessageV>, h: Seq<MessageV>)
    ensures
        unknown_messages(older, h).len() <= older.len(),
    decreases older.len(),
{
    if older.len() > 0 {
        unknown_len(older.drop_last(), h);
    }
}

}
