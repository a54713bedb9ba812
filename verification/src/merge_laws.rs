//! What holds of every reconstruction: the result does not depend on the
//! order in which the log hands its events over, nor on how often it hands
//! one over, and malformed events are skipped.

use vstd::prelude::*;
use vstd::seq_lib::*;
use crate::arrangement::{ids_identify, lemma_same_members};
use crate::bid_laws::{lemma_duplicate_keeps_distinct_bids, lemma_merged_bid_events_permutation};
use crate::catalog::{
    delivery_ids, rebuilt_from, reconstruct_all_spec, reconstruct_each, text_order,
};
use crate::events::{EventView, PayloadView};
use crate::ordering::{
    in_order, insertion_point, lemma_insert_keeps_order, lemma_insertion_point,
    lemma_ordered_unique, strict_weak_order,
};
use crate::overlay_laws::{lemma_duplicate_keeps_overlay, lemma_ordered_updates_permutation};
use crate::reconstruct::{
    bids_of, delivery_of, latest_matching, latest_root, lemma_latest_matching, newer_event,
    reconstruct_spec, roots_of, updates_of,
};
use crate::status::KIND_DELIVERY;
use crate::text::{lemma_text_before_total, lemma_text_before_transitive, text_before};

verus! {

/// The preferred event does not depend on the arrangement of the events.
pub proof fn lemma_latest_matching_permutation(
    s1: Seq<EventView>,
    s2: Seq<EventView>,
    wanted: spec_fn(EventView) -> bool,
)
    requires
        s1.to_multiset() == s2.to_multiset(),
        ids_identify(s1),
    ensures
        latest_matching(s1, wanted) == latest_matching(s2, wanted),
{
    lemma_same_members(s1, s2);
    lemma_latest_matching(s1, wanted);
    lemma_latest_matching(s2, wanted);
    match latest_matching(s1, wanted) {
        None => {
            if latest_matching(s2, wanted) is Some {
                let r2 = latest_matching(s2, wanted)->Some_0;
                assert(s1.contains(r2));
            }
        },
        Some(r1) => {
            assert(s2.contains(r1));
            let k = choose|k: int| 0 <= k < s2.len() && s2[k] == r1;
            assert(wanted(s2[k]));
            let r2 = latest_matching(s2, wanted)->Some_0;
            assert(s1.contains(r2));
            let m = choose|m: int| 0 <= m < s1.len() && s1[m] == r2;
            let n = choose|n: int| 0 <= n < s1.len() && s1[n] == r1;
            assert(!newer_event(s1[m], r1));
            assert(!newer_event(s2[k], r2));
            lemma_text_before_total(r1.id, r2.id);
            assert(s1[m].id == s1[n].id);
        },
    }
}

/// Reconstruction is independent of order: two arrangements of the same
/// events, in which an event identifier stands for one event, give the
/// same delivery.
pub proof fn lemma_reconstruct_order_independent(
    s1: Seq<EventView>,
    s2: Seq<EventView>,
    id: Seq<char>,
)
    requires
        s1.to_multiset() == s2.to_multiset(),
        ids_identify(s1),
    ensures
        reconstruct_spec(s1, id) == reconstruct_spec(s2, id),
{
    lemma_latest_matching_permutation(s1, s2, roots_of(id));
    lemma_ordered_updates_permutation(s1, s2, id);
    lemma_merged_bid_events_permutation(s1, s2, id);
}

/// Reconstruction is a function of the events: the same events in the
/// same arrangement give the same delivery, however often it is rebuilt.
pub proof fn lemma_reconstruct_repeatable(s1: Seq<EventView>, s2: Seq<EventView>, id: Seq<char>)
    requires
        s1 =~= s2,
    ensures
        reconstruct_spec(s1, id) == reconstruct_spec(s2, id),
{
}

/// A second copy of a root snapshot, or of a profile, changes nothing of
/// which event is preferred.
pub proof fn lemma_duplicate_keeps_latest(
    events: Seq<EventView>,
    e: EventView,
    wanted: spec_fn(EventView) -> bool,
)
    requires
        events.contains(e),
    ensures
        latest_matching(events.push(e), wanted) == latest_matching(events, wanted),
{
    let more = events.push(e);
    assert(more.drop_last() =~= events);
    assert(more.last() == e);
    lemma_latest_matching(events, wanted);
    let k = choose|k: int| 0 <= k < events.len() && events[k] == e;
    if wanted(e) {
        assert(wanted(events[k]));
    }
}

/// Duplicates are tolerated: an event that the log hands over a second
/// time changes nothing of the delivery, where an event identifier stands
/// for one event.
pub proof fn lemma_duplicate_changes_nothing(events: Seq<EventView>, e: EventView, id: Seq<char>)
    requires
        events.contains(e),
        ids_identify(events),
    ensures
        reconstruct_spec(events.push(e), id) == reconstruct_spec(events, id),
{
    lemma_duplicate_keeps_latest(events, e, roots_of(id));
    events.lemma_filter_push(e, bids_of(id));
    if (bids_of(id))(e) {
        let k = choose|k: int| 0 <= k < events.len() && events[k] == e;
        events.lemma_filter_contains(bids_of(id), k);
        lemma_duplicate_keeps_distinct_bids(events.filter(bids_of(id)), e);
    }
    match latest_root(events, id) {
        Some(root) => {
            lemma_duplicate_keeps_overlay(delivery_of(root), events, e, id);
        },
        None => {},
    }
}

/// Malformed content is skipped: an event whose content did not parse
/// changes nothing of the delivery that the other events give.
pub proof fn lemma_malformed_is_skipped(events: Seq<EventView>, e: EventView, id: Seq<char>)
    requires
        e.payload is Malformed,
    ensures
        reconstruct_spec(events.push(e), id) == reconstruct_spec(events, id),
{
    let more = events.push(e);
    assert(more.drop_last() =~= events);
    assert(more.last() == e);
    events.lemma_filter_push(e, updates_of(id));
    events.lemma_filter_push(e, bids_of(id));
}

/// The order on identifiers is a strict weak order.
pub proof fn lemma_text_order_is_strict_weak()
    ensures
        strict_weak_order(text_order()),
{
    let before = text_order();
    assert forall|a: Seq<char>| !#[trigger] before(a, a) by {
        lemma_text_before_total(a, a);
    }
    assert forall|a: Seq<char>, b: Seq<char>, c: Seq<char>| #[trigger]
        before(a, b) && #[trigger] before(b, c) implies before(a, c) by {
        lemma_text_before_transitive(a, b, c);
    }
    assert forall|a: Seq<char>, b: Seq<char>, c: Seq<char>| !#[trigger] before(a, b) && !#[trigger]
    before(b, c) implies !before(a, c) by {
        lemma_text_before_total(a, b);
        lemma_text_before_total(b, c);
        if text_before(b, a) && text_before(a, c) {
            lemma_text_before_transitive(b, a, c);
        }
    }
}

/// The event is a snapshot of the delivery `id`, going by its content.
pub open spec fn holds_snapshot_of(e: EventView, id: Seq<char>) -> bool {
    e.kind == KIND_DELIVERY && (e.payload matches PayloadView::Delivery(d) && d.id == id)
}

/// The listed identifiers are in ascending order, each once, and they are
/// the identifiers of the deliveries of which the events hold a snapshot.
pub proof fn lemma_delivery_ids(events: Seq<EventView>)
    ensures
        in_order(delivery_ids(events), text_order()),
        delivery_ids(events).no_duplicates(),
        forall|id: Seq<char>| #[trigger]
            delivery_ids(events).contains(id) <==> exists|i: int|
                0 <= i < events.len() && holds_snapshot_of(#[trigger] events[i], id),
    decreases events.len(),
{
    let ids = delivery_ids(events);
    if events.len() > 0 {
        let front = events.drop_last();
        let e = events.last();
        let rest = delivery_ids(front);
        lemma_delivery_ids(front);
        lemma_text_order_is_strict_weak();
        assert(events[events.len() - 1] == e);
        let adds = e.kind == KIND_DELIVERY && e.payload is Delivery;
        if adds {
            let new_id = e.payload->Delivery_0.id;
            if !rest.contains(new_id) {
                let p = insertion_point(rest, new_id, text_order());
                lemma_insertion_point(rest, new_id, text_order());
                lemma_insert_keeps_order(rest, new_id, text_order());
                assert(ids == rest.insert(p, new_id));
                assert forall|a: int, b: int| 0 <= a < ids.len() && 0 <= b < ids.len() && a
                    != b implies ids[a] != ids[b] by {
                    let oa = if a < p {
                        a
                    } else {
                        a - 1
                    };
                    let ob = if b < p {
                        b
                    } else {
                        b - 1
                    };
                    if a != p {
                        assert(ids[a] == rest[oa]);
                        assert(rest.contains(rest[oa]));
                    }
                    if b != p {
                        assert(ids[b] == rest[ob]);
                        assert(rest.contains(rest[ob]));
                    }
                }
                assert forall|id: Seq<char>| #[trigger] ids.contains(id) <==> (rest.contains(id) || id
                    == new_id) by {
                    if ids.contains(id) {
                        let a = choose|a: int| 0 <= a < ids.len() && ids[a] == id;
                        if a != p {
                            let oa = if a < p {
                                a
                            } else {
                                a - 1
                            };
                            assert(rest[oa] == id);
                        }
                    }
                    if rest.contains(id) {
                        let a = choose|a: int| 0 <= a < rest.len() && rest[a] == id;
                        let na = if a < p {
                            a
                        } else {
                            a + 1
                        };
                        assert(ids[na] == id);
                    }
                    if id == new_id {
                        assert(ids[p] == id);
                    }
                }
            }
        }
        assert forall|id: Seq<char>| #[trigger]
            ids.contains(id) <==> exists|i: int|
                0 <= i < events.len() && holds_snapshot_of(#[trigger] events[i], id) by {
            let in_front = exists|i: int|
                0 <= i < front.len() && holds_snapshot_of(#[trigger] front[i], id);
            assert(rest.contains(id) <==> in_front);
            if in_front {
                let i = choose|i: int| 0 <= i < front.len() && holds_snapshot_of(#[trigger] front[i], id);
                assert(events[i] == front[i]);
            }
            if exists|i: int| 0 <= i < events.len() && holds_snapshot_of(#[trigger] events[i], id) {
                let i = choose|i: int|
                    0 <= i < events.len() && holds_snapshot_of(#[trigger] events[i], id);
                if i < front.len() {
                    assert(front[i] == events[i]);
                }
            }
        }
    }
}

/// The deliveries of a list of identifiers do not depend on the
/// arrangement of the events.
pub proof fn lemma_reconstruct_each_permutation(
    s1: Seq<EventView>,
    s2: Seq<EventView>,
    ids: Seq<Seq<char>>,
)
    requires
        s1.to_multiset() == s2.to_multiset(),
        ids_identify(s1),
    ensures
        reconstruct_each(s1, ids) == reconstruct_each(s2, ids),
    decreases ids.len(),
{
    if ids.len() > 0 {
        lemma_reconstruct_each_permutation(s1, s2, ids.drop_last());
        lemma_reconstruct_order_independent(s1, s2, ids.last());
        assert((rebuilt_from(s1))(ids.last()) == (rebuilt_from(s2))(ids.last()));
    }
}

/// The list of all deliveries does not depend on the arrangement of the
/// events, where an event identifier stands for one event.
pub proof fn lemma_reconstruct_all_order_independent(s1: Seq<EventView>, s2: Seq<EventView>)
    requires
        s1.to_multiset() == s2.to_multiset(),
        ids_identify(s1),
    ensures
        reconstruct_all_spec(s1) == reconstruct_all_spec(s2),
{
    broadcast use vstd::multiset::group_multiset_axioms;

    let x = delivery_ids(s1);
    let y = delivery_ids(s2);
    lemma_delivery_ids(s1);
    lemma_delivery_ids(s2);
    lemma_same_members(s1, s2);
    lemma_text_order_is_strict_weak();
    x.lemma_multiset_has_no_duplicates();
    y.lemma_multiset_has_no_duplicates();
    assert forall|id: Seq<char>| x.to_multiset().count(id) == y.to_multiset().count(id) by {
        to_multiset_contains(x, id);
        to_multiset_contains(y, id);
        if x.contains(id) {
            let i = choose|i: int| 0 <= i < s1.len() && holds_snapshot_of(#[trigger] s1[i], id);
            assert(s1.contains(s1[i]));
            assert(s2.contains(s1[i]));
            let j = choose|j: int| 0 <= j < s2.len() && s2[j] == s1[i];
            assert(holds_snapshot_of(s2[j], id));
        }
        if y.contains(id) {
            let i = choose|i: int| 0 <= i < s2.len() && holds_snapshot_of(#[trigger] s2[i], id);
            assert(s2.contains(s2[i]));
            assert(s1.contains(s2[i]));
            let j = choose|j: int| 0 <= j < s1.len() && s1[j] == s2[i];
            assert(holds_snapshot_of(s1[j], id));
        }
        assert(x.contains(id) <==> y.contains(id));
    }
    assert(x.to_multiset() =~= y.to_multiset());
    assert forall|i: int, j: int|
        0 <= i < x.len() && 0 <= j < x.len() && !(text_order())(x[i], x[j]) && !(text_order())(
            x[j],
            x[i],
        ) implies #[trigger] x[i] == #[trigger] x[j] by {
        lemma_text_before_total(x[i], x[j]);
    }
    lemma_ordered_unique(x, y, text_order());
    lemma_reconstruct_each_permutation(s1, s2, x);
}

} // verus!
