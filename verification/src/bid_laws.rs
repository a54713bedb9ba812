//! What holds of the merged bids: one bid for each identifier, in the order
//! of creation, whatever events the log hands over, however often and in
//! whatever arrangement.

use vstd::prelude::*;
use vstd::seq_lib::*;
use crate::arrangement::{
    ids_identify, lemma_filter_permutation, lemma_first_place, lemma_same_members,
};
use crate::events::{EventView, PayloadView};
use crate::ordering::{lemma_ordered_unique, lemma_sort_by_order, sort_by_order, strict_weak_order};
use crate::reconstruct::{
    better_bid, bid_id, bid_order, bid_precedes, bid_records, bid_time, bids_of, distinct_bids,
    is_bid_of, kept_among, kept_for_its_bid, merged_bid_events, merged_bids,
};
use crate::text::{lemma_text_before_total, lemma_text_before_transitive, text_before};

verus! {

/// The order in which bids are listed is a strict weak order.
pub proof fn lemma_bid_order_is_strict_weak()
    ensures
        strict_weak_order(bid_order()),
{
    let before = bid_order();
    assert forall|a: EventView| !#[trigger] before(a, a) by {
        lemma_text_before_total(bid_id(a), bid_id(a));
    }
    assert forall|a: EventView, b: EventView, c: EventView| #[trigger]
        before(a, b) && #[trigger] before(b, c) implies before(a, c) by {
        if bid_time(a) == bid_time(b) && bid_time(b) == bid_time(c) {
            lemma_text_before_transitive(bid_id(a), bid_id(b), bid_id(c));
        }
    }
    assert forall|a: EventView, b: EventView, c: EventView| !#[trigger] before(a, b) && !#[trigger]
    before(b, c) implies !before(a, c) by {
        lemma_text_before_total(bid_id(a), bid_id(b));
        lemma_text_before_total(bid_id(b), bid_id(c));
        if text_before(bid_id(b), bid_id(a)) && text_before(bid_id(a), bid_id(c)) {
            lemma_text_before_transitive(bid_id(b), bid_id(a), bid_id(c));
        }
    }
}

/// Of two events neither of which is preferred to the other, the bids
/// carry the same time and the events the same identifier.
pub proof fn lemma_better_bid_tie(a: EventView, b: EventView)
    ensures
        !better_bid(a, b) && !better_bid(b, a) ==> bid_time(a) == bid_time(b) && a.id == b.id,
        better_bid(a, b) ==> !better_bid(b, a),
{
    lemma_text_before_total(a.id, b.id);
}

/// Preference among events for a bid is transitive, and so is its absence.
pub proof fn lemma_better_bid_order(a: EventView, b: EventView, c: EventView)
    ensures
        better_bid(a, b) && better_bid(b, c) ==> better_bid(a, c),
        !better_bid(a, b) && !better_bid(b, c) ==> !better_bid(a, c),
{
    lemma_text_before_total(a.id, b.id);
    lemma_text_before_total(b.id, c.id);
    if text_before(a.id, b.id) && text_before(b.id, c.id) {
        lemma_text_before_transitive(a.id, b.id, c.id);
    }
    if text_before(b.id, a.id) && text_before(a.id, c.id) {
        lemma_text_before_transitive(b.id, a.id, c.id);
    }
}

/// The event `x` stands in `bids` at a place where it is kept for its bid.
pub open spec fn is_kept_event(bids: Seq<EventView>, x: EventView) -> bool {
    exists|k: int| 0 <= k < bids.len() && #[trigger] bids[k] == x && kept_for_its_bid(bids, k)
}

/// What is kept among the first `n` events: each kept event stands at a
/// kept place before `n`, no two kept events are for the same bid, and the
/// event at every kept place before `n` is among them.
pub proof fn lemma_kept_among(bids: Seq<EventView>, n: int)
    requires
        0 <= n <= bids.len(),
    ensures
        forall|p: int|
            0 <= p < kept_among(bids, n).len() ==> exists|k: int|
                0 <= k < n && #[trigger] bids[k] == (#[trigger] kept_among(bids, n)[p])
                    && kept_for_its_bid(bids, k),
        forall|p: int, q: int|
            0 <= p < q < kept_among(bids, n).len() ==> bid_id(#[trigger] kept_among(bids, n)[p])
                != bid_id(#[trigger] kept_among(bids, n)[q]),
        forall|k: int|
            0 <= k < n && kept_for_its_bid(bids, k) ==> kept_among(bids, n).contains(
                #[trigger] bids[k],
            ),
    decreases n,
{
    if n > 0 {
        lemma_kept_among(bids, n - 1);
        let before = kept_among(bids, n - 1);
        let now = kept_among(bids, n);
        if kept_for_its_bid(bids, n - 1) {
            let e = bids[n - 1];
            assert(now == before.push(e));
            assert forall|p: int| 0 <= p < now.len() implies exists|k: int|
                0 <= k < n && #[trigger] bids[k] == (#[trigger] now[p]) && kept_for_its_bid(
                    bids,
                    k,
                ) by {
                if p < before.len() {
                    assert(now[p] == before[p]);
                    let k = choose|k: int|
                        0 <= k < n - 1 && #[trigger] bids[k] == before[p] && kept_for_its_bid(
                            bids,
                            k,
                        );
                    assert(0 <= k < n && bids[k] == now[p] && kept_for_its_bid(bids, k));
                } else {
                    assert(bids[n - 1] == now[p]);
                }
            }
            assert forall|p: int, q: int| 0 <= p < q < now.len() implies bid_id(#[trigger] now[p])
                != bid_id(#[trigger] now[q]) by {
                assert(now[p] == before[p]);
                if q < before.len() {
                    assert(now[q] == before[q]);
                } else {
                    let k = choose|k: int|
                        0 <= k < n - 1 && #[trigger] bids[k] == before[p] && kept_for_its_bid(
                            bids,
                            k,
                        );
                    if bid_id(bids[k]) == bid_id(e) {
                        assert(better_bid(bids[n - 1], bids[k]));
                        assert(!better_bid(bids[n - 1], bids[k]));
                    }
                }
            }
            assert forall|k: int| 0 <= k < n && kept_for_its_bid(bids, k) implies now.contains(
                #[trigger] bids[k],
            ) by {
                if k < n - 1 {
                    assert(before.contains(bids[k]));
                    let p = choose|p: int| 0 <= p < before.len() && before[p] == bids[k];
                    assert(now[p] == bids[k]);
                } else {
                    assert(now[now.len() - 1] == bids[k]);
                }
            }
        } else {
            assert(now == before);
            assert forall|p: int| 0 <= p < now.len() implies exists|k: int|
                0 <= k < n && #[trigger] bids[k] == (#[trigger] now[p]) && kept_for_its_bid(
                    bids,
                    k,
                ) by {
                let k = choose|k: int|
                    0 <= k < n - 1 && #[trigger] bids[k] == before[p] && kept_for_its_bid(bids, k);
                assert(0 <= k < n && bids[k] == now[p] && kept_for_its_bid(bids, k));
            }
        }
    }
}

/// What is kept among the first `n` events depends on those events and on
/// which of their places are kept, and on nothing else.
pub proof fn lemma_kept_among_agrees(a: Seq<EventView>, b: Seq<EventView>, n: int)
    requires
        0 <= n <= a.len(),
        n <= b.len(),
        forall|i: int| 0 <= i < n ==> a[i] == b[i],
        forall|i: int| 0 <= i < n ==> kept_for_its_bid(b, i) == kept_for_its_bid(a, i),
    ensures
        kept_among(a, n) == kept_among(b, n),
    decreases n,
{
    if n > 0 {
        lemma_kept_among_agrees(a, b, n - 1);
    }
}

/// Of the events for the bids on a delivery one is kept for each bid: no
/// two of the kept events are for the same bid, none occurs twice, and an
/// event is among them exactly if it stands at a kept place.
pub proof fn lemma_distinct_bids(bids: Seq<EventView>)
    ensures
        forall|p: int, q: int|
            0 <= p < q < distinct_bids(bids).len() ==> bid_id(#[trigger] distinct_bids(bids)[p])
                != bid_id(#[trigger] distinct_bids(bids)[q]),
        distinct_bids(bids).no_duplicates(),
        forall|x: EventView| distinct_bids(bids).contains(x) <==> is_kept_event(bids, x),
{
    let kept = distinct_bids(bids);
    lemma_kept_among(bids, bids.len() as int);
    assert forall|p: int, q: int| 0 <= p < kept.len() && 0 <= q < kept.len() && p != q implies kept[p]
        != kept[q] by {
        if p < q {
            assert(bid_id(kept[p]) != bid_id(kept[q]));
        } else {
            assert(bid_id(kept[q]) != bid_id(kept[p]));
        }
    }
    assert forall|x: EventView| kept.contains(x) <==> is_kept_event(bids, x) by {
        if kept.contains(x) {
            let p = choose|p: int| 0 <= p < kept.len() && kept[p] == x;
            let k = choose|k: int|
                0 <= k < bids.len() && #[trigger] bids[k] == kept[p] && kept_for_its_bid(bids, k);
            assert(bids[k] == x);
        }
        if is_kept_event(bids, x) {
            let k = choose|k: int|
                0 <= k < bids.len() && #[trigger] bids[k] == x && kept_for_its_bid(bids, k);
            assert(kept.contains(bids[k]));
        }
    }
}

/// Among the first `n` events there is, for a bid that occurs among them,
/// a place that would be kept if the events ended there.
pub proof fn lemma_preferred_place(bids: Seq<EventView>, bid: Seq<char>, n: int) -> (k: int)
    requires
        0 <= n <= bids.len(),
        exists|j: int| 0 <= j < n && bid_id(#[trigger] bids[j]) == bid,
    ensures
        0 <= k < n,
        bid_id(bids[k]) == bid,
        forall|j: int|
            0 <= j < n && bid_id(#[trigger] bids[j]) == bid ==> if j < k {
                better_bid(bids[k], bids[j])
            } else {
                !better_bid(bids[j], bids[k])
            },
    decreases n,
{
    let last = n - 1;
    lemma_better_bid_tie(bids[last], bids[last]);
    if exists|j: int| 0 <= j < last && bid_id(#[trigger] bids[j]) == bid {
        let c = lemma_preferred_place(bids, bid, last);
        if bid_id(bids[last]) == bid && better_bid(bids[last], bids[c]) {
            assert forall|j: int| 0 <= j < n && bid_id(#[trigger] bids[j]) == bid implies if j
                < last {
                better_bid(bids[last], bids[j])
            } else {
                !better_bid(bids[j], bids[last])
            } by {
                if j < last {
                    lemma_better_bid_order(bids[last], bids[c], bids[j]);
                    lemma_better_bid_order(bids[last], bids[j], bids[c]);
                }
            }
            last
        } else {
            c
        }
    } else {
        let j = choose|j: int| 0 <= j < n && bid_id(#[trigger] bids[j]) == bid;
        assert(j == last);
        last
    }
}

/// The bids that a list of bid events holds stand one for one beside
/// their events.
pub proof fn lemma_bid_records(s: Seq<EventView>)
    requires
        forall|i: int| 0 <= i < s.len() ==> (#[trigger] s[i]).payload is Bid,
    ensures
        bid_records(s).len() == s.len(),
        forall|i: int|
            0 <= i < s.len() ==> (#[trigger] bid_records(s)[i]).id == bid_id(s[i]) && bid_records(
                s,
            )[i].created_at == bid_time(s[i]) && s[i].payload == PayloadView::Bid(
                bid_records(s)[i],
            ),
    decreases s.len(),
{
    if s.len() > 0 {
        let front = s.drop_last();
        assert forall|i: int| 0 <= i < front.len() implies (#[trigger] front[i]).payload is Bid by {
            assert(front[i] == s[i]);
        }
        lemma_bid_records(front);
        assert(s.last() == s[s.len() - 1]);
        assert(bid_records(s) == bid_records(front) + seq![s.last().payload->Bid_0]);
        assert forall|i: int| 0 <= i < s.len() implies (#[trigger] bid_records(s)[i]).id == bid_id(
            s[i],
        ) && bid_records(s)[i].created_at == bid_time(s[i]) && s[i].payload
            == PayloadView::Bid(bid_records(s)[i]) by {
            if i < front.len() {
                assert(front[i] == s[i]);
                assert(bid_records(s)[i] == bid_records(front)[i]);
            }
        }
    }
}

/// The merged bids are free of duplicates and in order, whatever the
/// events and however often and in whatever arrangement they come: no two
/// of the bids have the same identifier, they stand in ascending order of
/// creation, each is the bid of a bid event of the delivery, and every bid
/// that such an event holds is there under its identifier.
pub proof fn lemma_merged_bids_distinct_and_ordered(events: Seq<EventView>, id: Seq<char>)
    ensures
        forall|p: int, q: int|
            0 <= p < q < merged_bids(events, id).len() ==> (#[trigger] merged_bids(events, id)[p]).id
                != (#[trigger] merged_bids(events, id)[q]).id,
        forall|p: int, q: int|
            0 <= p < q < merged_bids(events, id).len() ==> (#[trigger] merged_bids(
                events,
                id,
            )[p]).created_at <= (#[trigger] merged_bids(events, id)[q]).created_at,
        forall|p: int|
            0 <= p < merged_bids(events, id).len() ==> exists|k: int|
                0 <= k < events.len() && is_bid_of(#[trigger] events[k], id) && events[k].payload
                    == PayloadView::Bid(#[trigger] merged_bids(events, id)[p]),
        forall|k: int|
            0 <= k < events.len() && is_bid_of(#[trigger] events[k], id) ==> exists|p: int|
                0 <= p < merged_bids(events, id).len() && (#[trigger] merged_bids(events, id)[p]).id
                    == bid_id(events[k]),
{
    broadcast use vstd::multiset::group_multiset_axioms;

    let f = events.filter(bids_of(id));
    let d = distinct_bids(f);
    let s = merged_bid_events(events, id);
    let b = merged_bids(events, id);
    lemma_distinct_bids(f);
    lemma_bid_order_is_strict_weak();
    lemma_sort_by_order(d, bid_order());
    lemma_same_members(s, d);
    // every listed event is a bid event of the delivery, found among the events
    assert forall|i: int| 0 <= i < s.len() implies is_bid_of(#[trigger] s[i], id) && events.contains(
        s[i],
    ) by {
        assert(s.contains(s[i]));
        assert(d.contains(s[i]));
        assert(is_kept_event(f, s[i]));
        let k = choose|k: int| 0 <= k < f.len() && #[trigger] f[k] == s[i] && kept_for_its_bid(f, k);
        events.lemma_filter_pred(bids_of(id), k);
        assert(f.contains(f[k]));
        events.lemma_filter_contains_rev(bids_of(id), f[k]);
    }
    lemma_bid_records(s);
    // the listed events are distinct, and so are their bids
    d.lemma_multiset_has_no_duplicates();
    s.lemma_multiset_has_no_duplicates_conv();
    assert forall|p: int, q: int| 0 <= p < q < b.len() implies (#[trigger] b[p]).id != (
    #[trigger] b[q]).id && b[p].created_at <= b[q].created_at by {
        assert(s.contains(s[p]));
        assert(s.contains(s[q]));
        assert(d.contains(s[p]));
        assert(d.contains(s[q]));
        let i = choose|i: int| 0 <= i < d.len() && d[i] == s[p];
        let j = choose|j: int| 0 <= j < d.len() && d[j] == s[q];
        assert(s[p] != s[q]);
        if i < j {
            assert(bid_id(d[i]) != bid_id(d[j]));
        } else {
            assert(bid_id(d[j]) != bid_id(d[i]));
        }
        assert(!(bid_order())(s[q], s[p]));
        assert(!bid_precedes(s[q], s[p]));
    }
    assert forall|p: int| 0 <= p < b.len() implies exists|k: int|
        0 <= k < events.len() && is_bid_of(#[trigger] events[k], id) && events[k].payload
            == PayloadView::Bid(#[trigger] b[p]) by {
        assert(events.contains(s[p]));
        let k = choose|k: int| 0 <= k < events.len() && events[k] == s[p];
        assert(is_bid_of(events[k], id) && events[k].payload == PayloadView::Bid(
            b[p],
        ));
    }
    assert forall|k: int| 0 <= k < events.len() && is_bid_of(#[trigger] events[k], id) implies exists|
        p: int,
    | 0 <= p < b.len() && (#[trigger] b[p]).id == bid_id(events[k]) by {
        events.lemma_filter_contains(bids_of(id), k);
        let j = choose|j: int| 0 <= j < f.len() && f[j] == events[k];
        assert(bid_id(f[j]) == bid_id(events[k]));
        let c = lemma_preferred_place(f, bid_id(events[k]), f.len() as int);
        assert(kept_for_its_bid(f, c));
        assert(is_kept_event(f, f[c]));
        assert(d.contains(f[c]));
        assert(s.contains(f[c]));
        let p = choose|p: int| 0 <= p < s.len() && s[p] == f[c];
        assert(b[p].id == bid_id(events[k]));
    }
}

/// An event that is kept for its bid in one arrangement of the events is
/// kept in every other.
pub proof fn lemma_kept_in_every_arrangement(f1: Seq<EventView>, f2: Seq<EventView>, x: EventView)
    requires
        f1.to_multiset() == f2.to_multiset(),
        ids_identify(f1),
        is_kept_event(f1, x),
    ensures
        is_kept_event(f2, x),
{
    lemma_same_members(f1, f2);
    let k = choose|k: int| 0 <= k < f1.len() && #[trigger] f1[k] == x && kept_for_its_bid(f1, k);
    assert(f1.contains(x));
    assert(f2.contains(x));
    let m = lemma_first_place(f2, x, 0);
    assert forall|j: int|
        0 <= j < f2.len() && bid_id(#[trigger] f2[j]) == bid_id(f2[m]) implies if j < m {
        better_bid(f2[m], f2[j])
    } else {
        !better_bid(f2[j], f2[m])
    } by {
        let y = f2[j];
        assert(f2.contains(y));
        assert(f1.contains(y));
        let i = choose|i: int| 0 <= i < f1.len() && f1[i] == y;
        assert(bid_id(f1[i]) == bid_id(f1[k]));
        lemma_better_bid_tie(x, y);
        if j < m {
            assert(y != x);
            if i < k {
                assert(better_bid(f1[k], f1[i]));
            } else {
                assert(!better_bid(f1[i], f1[k]));
                if !better_bid(x, y) {
                    assert(f1[i].id == f1[k].id);
                }
            }
        } else {
            if i < k {
                assert(better_bid(f1[k], f1[i]));
            } else {
                assert(!better_bid(f1[i], f1[k]));
            }
        }
    }
    assert(f2[m] == x && kept_for_its_bid(f2, m));
}

/// The events kept for the bids do not depend on the arrangement of the
/// events: two arrangements keep the same events, each once.
pub proof fn lemma_distinct_bids_permutation(f1: Seq<EventView>, f2: Seq<EventView>)
    requires
        f1.to_multiset() == f2.to_multiset(),
        ids_identify(f1),
    ensures
        distinct_bids(f1).to_multiset() == distinct_bids(f2).to_multiset(),
{
    broadcast use vstd::multiset::group_multiset_axioms;

    let d1 = distinct_bids(f1);
    let d2 = distinct_bids(f2);
    lemma_distinct_bids(f1);
    lemma_distinct_bids(f2);
    lemma_same_members(f1, f2);
    assert(ids_identify(f2)) by {
        assert forall|i: int, j: int|
            0 <= i < f2.len() && 0 <= j < f2.len() && (#[trigger] f2[i]).id == (
            #[trigger] f2[j]).id implies f2[i] == f2[j] by {
            assert(f2.contains(f2[i]));
            assert(f2.contains(f2[j]));
            assert(f1.contains(f2[i]));
            assert(f1.contains(f2[j]));
            let a = choose|a: int| 0 <= a < f1.len() && f1[a] == f2[i];
            let b = choose|b: int| 0 <= b < f1.len() && f1[b] == f2[j];
            assert(f1[a].id == f1[b].id);
        }
    }
    d1.lemma_multiset_has_no_duplicates();
    d2.lemma_multiset_has_no_duplicates();
    assert forall|x: EventView| d1.to_multiset().count(x) == d2.to_multiset().count(x) by {
        to_multiset_contains(d1, x);
        to_multiset_contains(d2, x);
        if is_kept_event(f1, x) {
            lemma_kept_in_every_arrangement(f1, f2, x);
        }
        if is_kept_event(f2, x) {
            lemma_kept_in_every_arrangement(f2, f1, x);
        }
        assert(d1.contains(x) <==> d2.contains(x));
    }
    assert(d1.to_multiset() =~= d2.to_multiset());
}

/// The kept bid events in their listed order do not depend on the
/// arrangement of the events.
pub proof fn lemma_merged_bid_events_permutation(
    s1: Seq<EventView>,
    s2: Seq<EventView>,
    id: Seq<char>,
)
    requires
        s1.to_multiset() == s2.to_multiset(),
        ids_identify(s1),
    ensures
        merged_bid_events(s1, id) == merged_bid_events(s2, id),
{
    let f1 = s1.filter(bids_of(id));
    let f2 = s2.filter(bids_of(id));
    lemma_filter_permutation(s1, s2, bids_of(id));
    assert(ids_identify(f1)) by {
        assert forall|i: int, j: int|
            0 <= i < f1.len() && 0 <= j < f1.len() && (#[trigger] f1[i]).id == (
            #[trigger] f1[j]).id implies f1[i] == f1[j] by {
            assert(f1.contains(f1[i]));
            assert(f1.contains(f1[j]));
            s1.lemma_filter_contains_rev(bids_of(id), f1[i]);
            s1.lemma_filter_contains_rev(bids_of(id), f1[j]);
            let a = choose|a: int| 0 <= a < s1.len() && s1[a] == f1[i];
            let b = choose|b: int| 0 <= b < s1.len() && s1[b] == f1[j];
            assert(s1[a].id == s1[b].id);
        }
    }
    lemma_distinct_bids_permutation(f1, f2);
    let d1 = distinct_bids(f1);
    let d2 = distinct_bids(f2);
    lemma_distinct_bids(f1);
    lemma_bid_order_is_strict_weak();
    lemma_sort_by_order(d1, bid_order());
    lemma_sort_by_order(d2, bid_order());
    let x = sort_by_order(d1, bid_order());
    let y = sort_by_order(d2, bid_order());
    lemma_same_members(x, d1);
    assert forall|i: int, j: int|
        0 <= i < x.len() && 0 <= j < x.len() && !(bid_order())(x[i], x[j]) && !(bid_order())(
            x[j],
            x[i],
        ) implies #[trigger] x[i] == #[trigger] x[j] by {
        assert(bid_precedes(x[i], x[j]) == (bid_order())(x[i], x[j]));
        assert(bid_precedes(x[j], x[i]) == (bid_order())(x[j], x[i]));
        lemma_text_before_total(bid_id(x[i]), bid_id(x[j]));
        assert(x.contains(x[i]));
        assert(x.contains(x[j]));
        assert(d1.contains(x[i]));
        assert(d1.contains(x[j]));
        let a = choose|a: int| 0 <= a < d1.len() && d1[a] == x[i];
        let b = choose|b: int| 0 <= b < d1.len() && d1[b] == x[j];
        if a < b {
            assert(bid_id(d1[a]) != bid_id(d1[b]));
        } else if b < a {
            assert(bid_id(d1[b]) != bid_id(d1[a]));
        }
    }
    lemma_ordered_unique(x, y, bid_order());
}

/// A second copy of a bid event changes nothing of the events that are
/// kept for the bids.
pub proof fn lemma_duplicate_keeps_distinct_bids(bids: Seq<EventView>, e: EventView)
    requires
        bids.contains(e),
    ensures
        distinct_bids(bids.push(e)) == distinct_bids(bids),
{
    let more = bids.push(e);
    let n = bids.len() as int;
    let k = choose|k: int| 0 <= k < bids.len() && bids[k] == e;
    lemma_better_bid_tie(e, e);
    assert forall|i: int| 0 <= i < n implies kept_for_its_bid(more, i) == kept_for_its_bid(
        bids,
        i,
    ) by {
        assert(more[i] == bids[i]);
        if kept_for_its_bid(bids, i) {
            assert forall|j: int|
                0 <= j < more.len() && bid_id(#[trigger] more[j]) == bid_id(more[i]) implies if j
                < i {
                better_bid(more[i], more[j])
            } else {
                !better_bid(more[j], more[i])
            } by {
                if j < n {
                    assert(more[j] == bids[j]);
                } else {
                    assert(more[j] == bids[k]);
                    assert(bid_id(bids[k]) == bid_id(bids[i]));
                    lemma_better_bid_tie(bids[i], bids[k]);
                }
            }
        }
        if kept_for_its_bid(more, i) {
            assert forall|j: int|
                0 <= j < bids.len() && bid_id(#[trigger] bids[j]) == bid_id(bids[i]) implies if j
                < i {
                better_bid(bids[i], bids[j])
            } else {
                !better_bid(bids[j], bids[i])
            } by {
                assert(more[j] == bids[j]);
            }
        }
    }
    assert(!kept_for_its_bid(more, n)) by {
        assert(more[k] == more[n]);
    }
    lemma_kept_among_agrees(bids, more, n);
}

} // verus!
