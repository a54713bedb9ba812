//! Sorting as mathematics: sequences kept in order under a strict weak
//! order, insertion that keeps the order, and the uniqueness of the sorted
//! arrangement of a collection.

use vstd::prelude::*;
use vstd::seq_lib::*;

verus! {

/// `before` is a strict weak order: nothing comes before itself, the
/// relation is transitive, and so is "does not come before".
pub open spec fn strict_weak_order<A>(before: spec_fn(A, A) -> bool) -> bool {
    &&& forall|a: A| !#[trigger] before(a, a)
    &&& forall|a: A, b: A, c: A| #[trigger] before(a, b) && #[trigger] before(b, c) ==> before(a, c)
    &&& forall|a: A, b: A, c: A| !#[trigger] before(a, b) && !#[trigger] before(b, c) ==> !before(a, c)
}

/// No element of `s` comes before one that stands earlier in `s`.
pub open spec fn in_order<A>(s: Seq<A>, before: spec_fn(A, A) -> bool) -> bool {
    forall|i: int, j: int| 0 <= i < j < s.len() ==> !before(#[trigger] s[j], #[trigger] s[i])
}

/// Where `e` goes into the ordered sequence `sorted`: behind the last
/// element that `e` does not come before.
pub open spec fn insertion_point<A>(sorted: Seq<A>, e: A, before: spec_fn(A, A) -> bool) -> int
    decreases sorted.len(),
{
    if sorted.len() == 0 {
        0
    } else if before(e, sorted.last()) {
        insertion_point(sorted.drop_last(), e, before)
    } else {
        sorted.len() as int
    }
}

/// `sorted` with `e` put in at its insertion point.
pub open spec fn insert_in_order<A>(sorted: Seq<A>, e: A, before: spec_fn(A, A) -> bool) -> Seq<A> {
    sorted.insert(insertion_point(sorted, e, before), e)
}

/// The elements of `s` in order: each one in turn is inserted among those
/// before it, so elements that tie keep the order they had in `s`.
pub open spec fn sort_by_order<A>(s: Seq<A>, before: spec_fn(A, A) -> bool) -> Seq<A>
    decreases s.len(),
{
    if s.len() == 0 {
        Seq::empty()
    } else {
        insert_in_order(sort_by_order(s.drop_last(), before), s.last(), before)
    }
}

/// The insertion point lies within the sequence, everything from it on
/// comes after `e`, and the element just before it does not.
pub proof fn lemma_insertion_point<A>(sorted: Seq<A>, e: A, before: spec_fn(A, A) -> bool)
    ensures
        0 <= insertion_point(sorted, e, before) <= sorted.len(),
        forall|j: int|
            insertion_point(sorted, e, before) <= j < sorted.len() ==> before(e, #[trigger] sorted[j]),
        insertion_point(sorted, e, before) > 0 ==> !before(
            e,
            sorted[insertion_point(sorted, e, before) - 1],
        ),
    decreases sorted.len(),
{
    if sorted.len() > 0 && before(e, sorted.last()) {
        let front = sorted.drop_last();
        lemma_insertion_point(front, e, before);
        assert forall|j: int|
            insertion_point(sorted, e, before) <= j < sorted.len() implies before(
            e,
            #[trigger] sorted[j],
        ) by {
            if j < front.len() {
                assert(sorted[j] == front[j]);
            }
        }
        if insertion_point(sorted, e, before) > 0 {
            assert(sorted[insertion_point(sorted, e, before) - 1] == front[insertion_point(
                front,
                e,
                before,
            ) - 1]);
        }
    }
}

/// Inserting into an ordered sequence leaves it ordered.
pub proof fn lemma_insert_keeps_order<A>(sorted: Seq<A>, e: A, before: spec_fn(A, A) -> bool)
    requires
        strict_weak_order(before),
        in_order(sorted, before),
    ensures
        in_order(insert_in_order(sorted, e, before), before),
{
    let p = insertion_point(sorted, e, before);
    let r = insert_in_order(sorted, e, before);
    lemma_insertion_point(sorted, e, before);
    assert forall|i: int, j: int| 0 <= i < j < r.len() implies !before(
        #[trigger] r[j],
        #[trigger] r[i],
    ) by {
        if j == p {
            // r[j] is e, r[i] stands before the insertion point
            assert(r[i] == sorted[i]);
            if i < p - 1 {
                assert(!before(sorted[p - 1], sorted[i]));
            }
        } else if i == p {
            // r[i] is e, r[j] stands behind it
            assert(r[j] == sorted[j - 1]);
            assert(before(e, sorted[j - 1]));
            if before(sorted[j - 1], e) {
                assert(before(e, e));
            }
        } else {
            let oi = if i < p { i } else { i - 1 };
            let oj = if j < p { j } else { j - 1 };
            assert(r[i] == sorted[oi]);
            assert(r[j] == sorted[oj]);
        }
    }
}

/// Sorting gives an ordered sequence that holds each element as often as
/// the input does.
pub proof fn lemma_sort_by_order<A>(s: Seq<A>, before: spec_fn(A, A) -> bool)
    requires
        strict_weak_order(before),
    ensures
        in_order(sort_by_order(s, before), before),
        sort_by_order(s, before).to_multiset() == s.to_multiset(),
        sort_by_order(s, before).len() == s.len(),
    decreases s.len(),
{
    if s.len() == 0 {
        assert(sort_by_order(s, before) =~= s);
    } else {
        let rest = sort_by_order(s.drop_last(), before);
        lemma_sort_by_order(s.drop_last(), before);
        lemma_insert_keeps_order(rest, s.last(), before);
        lemma_insertion_point(rest, s.last(), before);
        to_multiset_insert(rest, insertion_point(rest, s.last(), before), s.last());
        to_multiset_build(s.drop_last(), s.last());
        assert(s.drop_last().push(s.last()) =~= s);
    }
}

/// Two ordered sequences that hold the same elements equally often are the
/// same sequence, provided that elements which tie are equal.
pub proof fn lemma_ordered_unique<A>(x: Seq<A>, y: Seq<A>, before: spec_fn(A, A) -> bool)
    requires
        strict_weak_order(before),
        in_order(x, before),
        in_order(y, before),
        x.to_multiset() == y.to_multiset(),
        forall|i: int, j: int|
            0 <= i < x.len() && 0 <= j < x.len() && !before(x[i], x[j]) && !before(x[j], x[i])
                ==> #[trigger] x[i] == #[trigger] x[j],
    ensures
        x == y,
    decreases x.len(),
{
    to_multiset_len(x);
    to_multiset_len(y);
    if x.len() == 0 {
        assert(x =~= y);
    } else {
        to_multiset_contains(x, y[0]);
        to_multiset_contains(y, y[0]);
        to_multiset_contains(x, x[0]);
        to_multiset_contains(y, x[0]);
        assert(y.contains(y[0]));
        assert(x.contains(x[0]));
        let i = choose|i: int| 0 <= i < x.len() && x[i] == y[0];
        let j = choose|j: int| 0 <= j < y.len() && y[j] == x[0];
        assert(!before(x[i], x[0]));
        assert(!before(y[j], y[0]));
        assert(x[0] == x[i]);
        to_multiset_remove(x, 0);
        to_multiset_remove(y, 0);
        assert(x.remove(0) =~= x.drop_first());
        assert(y.remove(0) =~= y.drop_first());
        let xs = x.drop_first();
        let ys = y.drop_first();
        assert forall|a: int, b: int|
            0 <= a < xs.len() && 0 <= b < xs.len() && !before(xs[a], xs[b]) && !before(
                xs[b],
                xs[a],
            ) implies #[trigger] xs[a] == #[trigger] xs[b] by {
            assert(xs[a] == x[a + 1]);
            assert(xs[b] == x[b + 1]);
        }
        assert(in_order(xs, before)) by {
            assert forall|a: int, b: int| 0 <= a < b < xs.len() implies !before(
                #[trigger] xs[b],
                #[trigger] xs[a],
            ) by {
                assert(xs[a] == x[a + 1]);
                assert(xs[b] == x[b + 1]);
            }
        }
        assert(in_order(ys, before)) by {
            assert forall|a: int, b: int| 0 <= a < b < ys.len() implies !before(
                #[trigger] ys[b],
                #[trigger] ys[a],
            ) by {
                assert(ys[a] == y[a + 1]);
                assert(ys[b] == y[b + 1]);
            }
        }
        lemma_ordered_unique(xs, ys, before);
        assert(x =~= seq![x[0]] + xs);
        assert(y =~= seq![y[0]] + ys);
    }
}

} // verus!
