//! Stable ordering of lists by an integer rank.
use vstd::prelude::*;

verus! {

/// The views of a list of values.
pub open spec fn seen<T: View>(s: Seq<T>) -> Seq<T::V> {
    s.map_values(|x: T| x@)
}

/// A value with a place in an order: lower ranks come first.
pub trait Ranked: View + Sized {
    spec fn rank_of(v: Self::V) -> int;

    fn rank(&self) -> (r: i128)
        ensures
            r == Self::rank_of(self@),
    ;
}

/// `x` put into an ordered list behind everything that does not come after it.
pub open spec fn placed<T: Ranked>(s: Seq<T::V>, x: T::V) -> Seq<T::V>
    decreases s.len(),
{
    if s.len() == 0 || T::rank_of(s.last()) <= T::rank_of(x) {
        s.push(x)
    } else {
        placed::<T>(s.drop_last(), x).push(s.last())
    }
}

/// The stable ordering of a list: by rank, values of one rank as they stood.
pub open spec fn ordered<T: Ranked>(s: Seq<T::V>) -> Seq<T::V>
    decreases s.len(),
{
    if s.len() == 0 {
        s
    } else {
        placed::<T>(ordered::<T>(s.drop_last()), s.last())
    }
}

/// Whether ranks never fall along a list.
pub open spec fn is_ordered<T: Ranked>(s: Seq<T::V>) -> bool {
    forall|i: int, j: int|
        0 <= i <= j < s.len() ==> T::rank_of(#[trigger] s[i]) <= T::rank_of(#[trigger] s[j])
}

/// The values of one rank, in the order in which they stand.
pub open spec fn of_rank<T: Ranked>(s: Seq<T::V>, rank: int) -> Seq<T::V>
    decreases s.len(),
{
    if s.len() == 0 {
        s
    } else {
        let rest = of_rank::<T>(s.drop_last(), rank);
        if T::rank_of(s.last()) == rank {
            rest.push(s.last())
        } else {
            rest
        }
    }
}

proof fn placed_at<T: Ranked>(s: Seq<T::V>, x: T::V, at: int)
    requires
        0 <= at <= s.len(),
        forall|k: int| at <= k < s.len() ==> T::rank_of(#[trigger] s[k]) > T::rank_of(x),
        at > 0 ==> T::rank_of(s[at - 1]) <= T::rank_of(x),
    ensures
        placed::<T>(s, x) == s.take(at).push(x) + s.skip(at),
    decreases s.len(),
{
    if at == s.len() {
        assert(s.take(at).push(x) + s.skip(at) =~= s.push(x));
    } else {
        assert(T::rank_of(s.last()) > T::rank_of(x));
        placed_at::<T>(s.drop_last(), x, at);
        assert(s.drop_last().take(at) =~= s.take(at));
        assert((s.take(at).push(x) + s.drop_last().skip(at)).push(s.last()) =~= s.take(at).push(x)
            + s.skip(at));
    }
}

proof fn placed_props<T: Ranked>(s: Seq<T::V>, x: T::V)
    requires
        is_ordered::<T>(s),
    ensures
        placed::<T>(s, x).len() == s.len() + 1,
        is_ordered::<T>(placed::<T>(s, x)),
        placed::<T>(s, x).last() == x || (s.len() > 0 && placed::<T>(s, x).last() == s.last()
            && T::rank_of(s.last()) > T::rank_of(x)),
        forall|r: int|
            #[trigger] of_rank::<T>(placed::<T>(s, x), r) == of_rank::<T>(s.push(x), r),
        placed::<T>(s, x).to_multiset() == s.push(x).to_multiset(),
    decreases s.len(),
{
    broadcast use vstd::seq_lib::group_to_multiset_ensures;

    if s.len() == 0 || T::rank_of(s.last()) <= T::rank_of(x) {
        assert(is_ordered::<T>(s.push(x)));
    } else {
        let rest = s.drop_last();
        placed_props::<T>(rest, x);
        let p = placed::<T>(rest, x);
        let q = p.push(s.last());
        assert forall|i: int, j: int| 0 <= i <= j < q.len() implies T::rank_of(#[trigger] q[i])
            <= T::rank_of(#[trigger] q[j]) by {
            if j == q.len() - 1 && i < j {
                assert(T::rank_of(p[i]) <= T::rank_of(p.last()));
            }
        }
        assert forall|r: int| #[trigger] of_rank::<T>(q, r) == of_rank::<T>(s.push(x), r) by {
            assert(q.drop_last() =~= p);
            assert(rest.push(x).drop_last() =~= rest);
            assert(s.push(x).drop_last() =~= s);
            assert(of_rank::<T>(p, r) == of_rank::<T>(rest.push(x), r));
            assert(of_rank::<T>(s, r) == if T::rank_of(s.last()) == r {
                of_rank::<T>(rest, r).push(s.last())
            } else {
                of_rank::<T>(rest, r)
            });
        }
        assert(q.to_multiset() == p.to_multiset().insert(s.last()));
        assert(rest.push(s.last()) =~= s);
        assert(s.to_multiset() == rest.to_multiset().insert(s.last()));
        assert(s.push(x).to_multiset() == s.to_multiset().insert(x));
        assert(rest.push(x).to_multiset() == rest.to_multiset().insert(x));
        assert(q.to_multiset() =~= s.push(x).to_multiset());
    }
}

/// Ordering a list keeps exactly its values, puts lower ranks first, and
/// leaves values of one rank in the order in which they stood.
pub proof fn ordering_is_stable<T: Ranked>(s: Seq<T::V>)
    ensures
        ordered::<T>(s).len() == s.len(),
        is_ordered::<T>(ordered::<T>(s)),
        ordered::<T>(s).to_multiset() == s.to_multiset(),
        forall|r: int| #[trigger] of_rank::<T>(ordered::<T>(s), r) == of_rank::<T>(s, r),
    decreases s.len(),
{
    broadcast use vstd::seq_lib::group_to_multiset_ensures;

    if s.len() > 0 {
        let rest = s.drop_last();
        let o = ordered::<T>(rest);
        ordering_is_stable::<T>(rest);
        placed_props::<T>(o, s.last());
        assert(rest.push(s.last()) =~= s);
        assert forall|r: int| #[trigger] of_rank::<T>(ordered::<T>(s), r) == of_rank::<T>(s, r) by {
            assert(o.push(s.last()).drop_last() =~= o);
            assert(of_rank::<T>(o, r) == of_rank::<T>(rest, r));
        }
        assert(o.push(s.last()).to_multiset() == o.to_multiset().insert(s.last()));
        assert(s.to_multiset() == rest.to_multiset().insert(s.last()));
    }
}

/// Ordering an ordered list changes nothing.
pub proof fn ordering_ordered_is_identity<T: Ranked>(s: Seq<T::V>)
    requires
        is_ordered::<T>(s),
    ensures
        ordered::<T>(s) == s,
    decreases s.len(),
{
    if s.len() > 0 {
        assert(is_ordered::<T>(s.drop_last()));
        ordering_ordered_is_identity::<T>(s.drop_last());
        assert(s.drop_last().push(s.last()) =~= s);
        if s.len() > 1 {
            assert(T::rank_of(s[s.len() - 2]) <= T::rank_of(s[s.len() - 1]));
        }
    }
}

/// Ordering twice is ordering once.
pub proof fn ordering_is_idempotent<T: Ranked>(s: Seq<T::V>)
    ensures
        ordered::<T>(ordered::<T>(s)) == ordered::<T>(s),
{
    ordering_is_stable::<T>(s);
    ordering_ordered_is_identity::<T>(ordered::<T>(s));
}

/// A value stands in the ordering exactly when it stands in the list.
pub proof fn ordering_keeps_members<T: Ranked>(s: Seq<T::V>, x: T::V)
    ensures
        ordered::<T>(s).contains(x) <==> s.contains(x),
{
    broadcast use vstd::seq_lib::group_to_multiset_ensures;

    ordering_is_stable::<T>(s);
    assert(s.to_multiset().count(x) > 0 <==> s.contains(x));
    assert(ordered::<T>(s).to_multiset().count(x) > 0 <==> ordered::<T>(s).contains(x));
}

/// Orders a list in place.
pub fn order<T: Ranked>(v: &mut Vec<T>)
    ensures
        seen(final(v)@) == ordered::<T>(seen(old(v)@)),
{
    let ghost all = seen(v@);
    let n: usize = v.len();
    let mut i: usize = 0;
    assert(ordered::<T>(all.take(0)) + all.skip(0) =~= all);
    while i < n
        invariant
            i <= n,
            n == all.len(),
            v@.len() == n,
            all == seen(old(v)@),
            seen(v@) == ordered::<T>(all.take(i as int)) + all.skip(i as int),
        decreases n - i,
    {
        let ghost done = ordered::<T>(all.take(i as int));
        proof {
            ordering_is_stable::<T>(all.take(i as int));
        }
        let x: T = v.remove(i);
        let ghost w = v@;
        assert(seen(w) =~= done + all.skip(i as int + 1)) by {
            assert(seen(w) =~= seen(old(v)@).take(0) + (done + all.skip(i as int)).remove(
                i as int,
            ));
            assert((done + all.skip(i as int)).remove(i as int) =~= done + all.skip(i as int + 1));
        }
        assert(x@ == all[i as int]) by {
            assert((done + all.skip(i as int))[i as int] == all[i as int]);
        }
        let key: i128 = x.rank();
        let mut at: usize = i;
        while at > 0 && v[at - 1].rank() > key
            invariant
                at <= i < n,
                v@ == w,
                w.len() == n - 1,
                key == T::rank_of(x@),
                done.len() == i,
                seen(w) == done + all.skip(i as int + 1),
                n == all.len(),
                forall|k: int| at <= k < i ==> T::rank_of(#[trigger] done[k]) > T::rank_of(x@),
            decreases at,
        {
            assert(seen(w)[at - 1] == done[at - 1]);
            at -= 1;
        }
        proof {
            if at > 0 {
                assert(seen(w)[at - 1] == done[at - 1]);
            }
            placed_at::<T>(done, x@, at as int);
            assert(all.take(i as int + 1).drop_last() =~= all.take(i as int));
        }
        let ghost xv = x@;
        v.insert(at, x);
        proof {
            assert(seen(v@) =~= seen(w).insert(at as int, xv));
            assert(seen(w).insert(at as int, xv) =~= (done.take(at as int).push(xv) + done.skip(
                at as int,
            )) + all.skip(i as int + 1));
        }
        i += 1;
    }
    assert(all.take(n as int) =~= all);
    assert(ordered::<T>(all) + all.skip(n as int) =~= ordered::<T>(all));
}

}
