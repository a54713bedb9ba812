//! Arrangements of the same events: sequences that hold the same events
//! equally often, and what filtering keeps of that.

use vstd::prelude::*;
use vstd::seq_lib::*;
use crate::events::EventView;

verus! {

/// An event identifier stands for one event: events of `events` with the
/// same identifier are the same event.
pub open spec fn ids_identify(events: Seq<EventView>) -> bool {
    forall|i: int, j: int|
        0 <= i < events.len() && 0 <= j < events.len() && (#[trigger] events[i]).id == (
        #[trigger] events[j]).id ==> events[i] == events[j]
}

/// Two arrangements of the same events hold the same events.
pub proof fn lemma_same_members<A>(s1: Seq<A>, s2: Seq<A>)
    requires
        s1.to_multiset() == s2.to_multiset(),
    ensures
        forall|x: A| s1.contains(x) <==> s2.contains(x),
        s1.len() == s2.len(),
{
    assert forall|x: A| s1.contains(x) <==> s2.contains(x) by {
        to_multiset_contains(s1, x);
        to_multiset_contains(s2, x);
    }
    to_multiset_len(s1);
    to_multiset_len(s2);
}

/// A filtered sequence holds each element that passes the test as often as
/// the sequence does, and no other element.
pub proof fn lemma_filter_count<A>(s: Seq<A>, pred: spec_fn(A) -> bool, x: A)
    ensures
        s.filter(pred).to_multiset().count(x) == if pred(x) {
            s.to_multiset().count(x)
        } else {
            0
        },
    decreases s.len(),
{
    broadcast use vstd::multiset::group_multiset_axioms;

    reveal(Seq::filter);
    if s.len() == 0 {
        s.to_multiset_ensures();
        assert(s.to_multiset().len() == 0);
    } else {
        let front = s.drop_last();
        lemma_filter_count(front, pred, x);
        assert(front.push(s.last()) =~= s);
        to_multiset_build(front, s.last());
        if pred(s.last()) {
            to_multiset_build(front.filter(pred), s.last());
        }
    }
}

/// Filtering two arrangements of the same events gives two arrangements of
/// the same events.
pub proof fn lemma_filter_permutation<A>(s1: Seq<A>, s2: Seq<A>, pred: spec_fn(A) -> bool)
    requires
        s1.to_multiset() == s2.to_multiset(),
    ensures
        s1.filter(pred).to_multiset() == s2.filter(pred).to_multiset(),
{
    assert forall|x: A|
        s1.filter(pred).to_multiset().count(x) == s2.filter(pred).to_multiset().count(x) by {
        lemma_filter_count(s1, pred, x);
        lemma_filter_count(s2, pred, x);
    }
    assert(s1.filter(pred).to_multiset() =~= s2.filter(pred).to_multiset());
}

/// The first place from `from` on at which `x` stands in `s`.
pub proof fn lemma_first_place<A>(s: Seq<A>, x: A, from: int) -> (m: int)
    requires
        0 <= from <= s.len(),
        forall|j: int| 0 <= j < from ==> s[j] != x,
        s.contains(x),
    ensures
        0 <= m < s.len(),
        s[m] == x,
        forall|j: int| 0 <= j < m ==> s[j] != x,
    decreases s.len() - from,
{
    let i = choose|i: int| 0 <= i < s.len() && s[i] == x;
    assert(from <= i);
    if s[from] == x {
        from
    } else {
        lemma_first_place(s, x, from + 1)
    }
}

} // verus!
