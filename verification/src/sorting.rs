//! Stable sorting of lists by a rank that the element type gives.
use vstd::prelude::*;

verus! {

/// Elements that lists are sorted by.
pub trait Ranked: View + Sized {
    /// Whether `a` may stand before `b`.
    spec fn in_order(a: Self::V, b: Self::V) -> bool;

    fn may_precede(&self, other: &Self) -> (b: bool)
        ensures
            b == Self::in_order(self@, other@),
    ;
}

pub open spec fn item_views<T: View>(s: Seq<T>) -> Seq<T::V> {
    s.map_values(|x: T| x@)
}

/// `s` with `x` put in behind everything that may stand before it, as far back as it goes.
pub open spec fn placed<T: Ranked>(s: Seq<T::V>, x: T::V) -> Seq<T::V>
    decreases s.len(),
{
    if s.len() == 0 || T::in_order(s.last(), x) {
        s.push(x)
    } else {
        placed::<T>(s.drop_last(), x).push(s.last())
    }
}

/// The items of `s` sorted by rank, equals in the order in which they came.
pub open spec fn sorted<T: Ranked>(s: Seq<T::V>) -> Seq<T::V>
    decreases s.len(),
{
    if s.len() == 0 {
        seq![]
    } else {
        placed::<T>(sorted::<T>(s.drop_last()), s.last())
    }
}

/// Whether every item may stand before all those behind it.
pub open spec fn is_sorted<T: Ranked>(s: Seq<T::V>) -> bool {
    forall|i: int, j: int| 0 <= i < j < s.len() ==> T::in_order(#[trigger] s[i], #[trigger] s[j])
}

/// Whether the rank is a total preorder.
pub open spec fn is_ranking<T: Ranked>() -> bool {
    &&& forall|a: T::V, b: T::V| #[trigger] T::in_order(a, b) || T::in_order(b, a)
    &&& forall|a: T::V, b: T::V, c: T::V| #[trigger]
        T::in_order(a, b) && #[trigger] T::in_order(b, c) ==> T::in_order(a, c)
}

proof fn lemma_placed<T: Ranked>(s: Seq<T::V>, x: T::V)
    requires
        is_ranking::<T>(),
        is_sorted::<T>(s),
    ensures
        is_sorted::<T>(placed::<T>(s, x)),
        placed::<T>(s, x).to_multiset() == s.to_multiset().insert(x),
    decreases s.len(),
{
    broadcast use vstd::seq_lib::group_to_multiset_ensures;

    let p = placed::<T>(s, x);
    if s.len() == 0 || T::in_order(s.last(), x) {
        assert forall|i: int, j: int| 0 <= i < j < p.len() implies T::in_order(
            #[trigger] p[i],
            #[trigger] p[j],
        ) by {
            if j == s.len() && i < s.len() - 1 {
                assert(T::in_order(s[i], s[s.len() - 1]));
            }
        }
    } else {
        let r = s.drop_last();
        assert forall|i: int, j: int| 0 <= i < j < r.len() implies T::in_order(
            #[trigger] r[i],
            #[trigger] r[j],
        ) by {
            assert(T::in_order(s[i], s[j]));
        }
        lemma_placed::<T>(r, x);
        let q = placed::<T>(r, x);
        assert(r.push(s.last()) =~= s);
        assert forall|i: int| 0 <= i < q.len() implies T::in_order(#[trigger] q[i], s.last()) by {
            assert(q.to_multiset().count(q[i]) > 0);
            if q[i] == x {
                assert(T::in_order(s.last(), x) || T::in_order(x, s.last()));
            } else {
                assert(r.to_multiset().count(q[i]) > 0);
                assert(r.contains(q[i]));
                let k = choose|k: int| 0 <= k < r.len() && r[k] == q[i];
                assert(T::in_order(s[k], s[s.len() - 1]));
            }
        }
        assert(p.to_multiset() =~= s.to_multiset().insert(x));
    }
}

/// A sorted list holds the same items as before, no more and no fewer, in order.
pub proof fn sorting_keeps_the_items_and_orders_them<T: Ranked>(s: Seq<T::V>)
    requires
        is_ranking::<T>(),
    ensures
        is_sorted::<T>(sorted::<T>(s)),
        sorted::<T>(s).to_multiset() == s.to_multiset(),
    decreases s.len(),
{
    broadcast use vstd::seq_lib::group_to_multiset_ensures;

    if s.len() > 0 {
        sorting_keeps_the_items_and_orders_them::<T>(s.drop_last());
        lemma_placed::<T>(sorted::<T>(s.drop_last()), s.last());
        assert(s.drop_last().push(s.last()) =~= s);
    }
}

proof fn lemma_placed_among<T: Ranked>(s: Seq<T::V>, x: T::V, one: spec_fn(T::V) -> bool)
    requires
        forall|a: T::V, b: T::V| one(a) && one(b) ==> #[trigger] T::in_order(a, b),
    ensures
        placed::<T>(s, x).filter(one) == (if one(x) {
            s.filter(one).push(x)
        } else {
            s.filter(one)
        }),
    decreases s.len(),
{
    reveal(Seq::filter);
    if s.len() == 0 || T::in_order(s.last(), x) {
        assert(s.push(x).drop_last() =~= s);
    } else {
        lemma_placed_among::<T>(s.drop_last(), x, one);
        let q = placed::<T>(s.drop_last(), x);
        assert(q.push(s.last()).drop_last() =~= q);
    }
}

/// Items of one rank keep the order in which they came.
pub proof fn items_of_one_rank_keep_their_order<T: Ranked>(
    s: Seq<T::V>,
    one: spec_fn(T::V) -> bool,
)
    requires
        forall|a: T::V, b: T::V| one(a) && one(b) ==> #[trigger] T::in_order(a, b),
    ensures
        sorted::<T>(s).filter(one) == s.filter(one),
    decreases s.len(),
{
    reveal(Seq::filter);
    if s.len() > 0 {
        items_of_one_rank_keep_their_order::<T>(s.drop_last(), one);
        lemma_placed_among::<T>(sorted::<T>(s.drop_last()), s.last(), one);
    }
}

/// A list with each item that repeats the one before it taken out.
pub open spec fn deduped<V>(s: Seq<V>) -> Seq<V>
    decreases s.len(),
{
    if s.len() == 0 {
        seq![]
    } else {
        let before = deduped(s.drop_last());
        if before.len() > 0 && before.last() == s.last() {
            before
        } else {
            before.push(s.last())
        }
    }
}

proof fn lemma_place_at<T: Ranked>(s: Seq<T::V>, x: T::V, p: int)
    requires
        0 <= p <= s.len(),
        p == 0 || T::in_order(s[p - 1], x),
        forall|k: int| p <= k < s.len() ==> !T::in_order(#[trigger] s[k], x),
    ensures
        placed::<T>(s, x) == s.take(p).push(x) + s.skip(p),
    decreases s.len(),
{
    if p == s.len() {
        assert(s.take(p) =~= s);
        assert(s.push(x) =~= s.take(p).push(x) + s.skip(p));
    } else {
        let r = s.drop_last();
        assert(!T::in_order(s[s.len() - 1], x));
        lemma_place_at::<T>(r, x, p);
        assert(placed::<T>(s, x) =~= s.take(p).push(x) + s.skip(p));
    }
}

/// The items sorted by rank; the order of equals stays.
pub fn sort_ranked<T: Ranked>(items: Vec<T>) -> (r: Vec<T>)
    ensures
        item_views(r@) == sorted::<T>(item_views(items@)),
{
    let ghost all = item_views(items@);
    let mut rest: Vec<T> = items;
    let mut r: Vec<T> = Vec::new();
    let ghost mut n: int = 0;
    assert(item_views(r@) =~= sorted::<T>(all.take(0)));
    while rest.len() > 0
        invariant
            0 <= n <= all.len(),
            rest@.len() == all.len() - n,
            item_views(rest@) == all.skip(n),
            item_views(r@) == sorted::<T>(all.take(n)),
        decreases rest@.len(),
    {
        let ghost before = item_views(r@);
        let ghost left = item_views(rest@);
        assert(left[0] == all[n] && left[0] == rest@[0]@);
        let x: T = rest.remove(0);
        assert(x@ == all[n]);
        assert(item_views(rest@) =~= left.skip(1));
        assert(left.skip(1) =~= all.skip(n + 1));
        let mut p: usize = r.len();
        while p > 0 && !r[p - 1].may_precede(&x)
            invariant
                p <= r@.len(),
                before == item_views(r@),
                forall|k: int| p <= k < r@.len() ==> !T::in_order(#[trigger] before[k], x@),
            decreases p,
        {
            p -= 1;
            assert(before[p as int] == r@[p as int]@);
        }
        let ghost xv = x@;
        proof {
            if p > 0 {
                assert(before[p - 1] == r@[p - 1]@);
            }
            lemma_place_at::<T>(before, x@, p as int);
        }
        r.insert(p, x);
        assert(item_views(r@) =~= before.take(p as int).push(xv) + before.skip(p as int));
        assert(all.take(n + 1).drop_last() =~= all.take(n));
        proof {
            n = n + 1;
        }
    }
    assert(all.take(n) =~= all);
    r
}

} // verus!
