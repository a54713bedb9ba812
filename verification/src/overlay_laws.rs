//! What holds of the overlay of status updates: a field once set is not
//! lost, the order of application is fixed by the events alone, and an
//! update laid over a delivery twice counts once.

use vstd::prelude::*;
use vstd::seq_lib::*;
use crate::arrangement::{ids_identify, lemma_filter_permutation, lemma_same_members};
use crate::events::{EventView, PayloadView};
use crate::model::DeliveryView;
use crate::ordering::{
    insertion_point, lemma_insertion_point, lemma_ordered_unique, lemma_sort_by_order,
    sort_by_order, strict_weak_order,
};
use crate::reconstruct::{
    ordered_updates, overlay, overlay_all, overlay_event, update_order, update_precedes,
    update_time, updates_of,
};
use crate::text::{lemma_text_before_total, lemma_text_before_transitive, text_before};

verus! {

/// The event holds an update that carries an accepted bid.
pub open spec fn sets_accepted_bid(e: EventView) -> bool {
    e.payload matches PayloadView::Update(u) && u.accepted_bid is Some
}

/// The event holds an update that carries a proof of delivery.
pub open spec fn sets_proof(e: EventView) -> bool {
    e.payload matches PayloadView::Update(u) && u.proof_of_delivery is Some
}

/// The event holds an update that carries a completion time.
pub open spec fn sets_completed_at(e: EventView) -> bool {
    e.payload matches PayloadView::Update(u) && u.completed_at is Some
}

/// The event holds an update that carries a rating.
pub open spec fn sets_rating(e: EventView) -> bool {
    e.payload matches PayloadView::Update(u) && u.sender_rating is Some
}

/// The event holds an update that carries feedback.
pub open spec fn sets_feedback(e: EventView) -> bool {
    e.payload matches PayloadView::Update(u) && u.sender_feedback is Some
}

/// The overlay never loses a field that was set: where the update at `k`
/// carries an overlay field and no later update of the sequence carries
/// it, the delivery has that field from the update at `k`, whatever the
/// later updates do to the status and to the other fields.
pub proof fn lemma_overlay_keeps_set_field(d: DeliveryView, updates: Seq<EventView>, k: int)
    requires
        0 <= k < updates.len(),
    ensures
        sets_accepted_bid(updates[k]) && (forall|j: int|
            k < j < updates.len() ==> !sets_accepted_bid(#[trigger] updates[j])) ==> overlay_all(
            d,
            updates,
        ).accepted_bid == updates[k].payload->Update_0.accepted_bid,
        sets_proof(updates[k]) && (forall|j: int|
            k < j < updates.len() ==> !sets_proof(#[trigger] updates[j])) ==> overlay_all(
            d,
            updates,
        ).proof_of_delivery == updates[k].payload->Update_0.proof_of_delivery,
        sets_completed_at(updates[k]) && (forall|j: int|
            k < j < updates.len() ==> !sets_completed_at(#[trigger] updates[j])) ==> overlay_all(
            d,
            updates,
        ).completed_at == updates[k].payload->Update_0.completed_at,
        sets_rating(updates[k]) && (forall|j: int|
            k < j < updates.len() ==> !sets_rating(#[trigger] updates[j])) ==> overlay_all(
            d,
            updates,
        ).sender_rating == updates[k].payload->Update_0.sender_rating,
        sets_feedback(updates[k]) && (forall|j: int|
            k < j < updates.len() ==> !sets_feedback(#[trigger] updates[j])) ==> overlay_all(
            d,
            updates,
        ).sender_feedback == updates[k].payload->Update_0.sender_feedback,
    decreases updates.len(),
{
    let front = updates.drop_last();
    let last = updates.len() - 1;
    assert(updates.last() == updates[last]);
    if k < last {
        lemma_overlay_keeps_set_field(d, front, k);
        assert(front[k] == updates[k]);
        assert forall|j: int| k < j < front.len() implies front[j] == updates[j] by {}
        if sets_accepted_bid(updates[k]) && (forall|j: int|
            k < j < updates.len() ==> !sets_accepted_bid(#[trigger] updates[j])) {
            assert forall|j: int| k < j < front.len() implies !sets_accepted_bid(
                #[trigger] front[j],
            ) by {
                assert(front[j] == updates[j]);
            }
            assert(!sets_accepted_bid(updates[last]));
        }
        if sets_proof(updates[k]) && (forall|j: int|
            k < j < updates.len() ==> !sets_proof(#[trigger] updates[j])) {
            assert forall|j: int| k < j < front.len() implies !sets_proof(#[trigger] front[j]) by {
                assert(front[j] == updates[j]);
            }
            assert(!sets_proof(updates[last]));
        }
        if sets_completed_at(updates[k]) && (forall|j: int|
            k < j < updates.len() ==> !sets_completed_at(#[trigger] updates[j])) {
            assert forall|j: int| k < j < front.len() implies !sets_completed_at(
                #[trigger] front[j],
            ) by {
                assert(front[j] == updates[j]);
            }
            assert(!sets_completed_at(updates[last]));
        }
        if sets_rating(updates[k]) && (forall|j: int|
            k < j < updates.len() ==> !sets_rating(#[trigger] updates[j])) {
            assert forall|j: int| k < j < front.len() implies !sets_rating(#[trigger] front[j]) by {
                assert(front[j] == updates[j]);
            }
            assert(!sets_rating(updates[last]));
        }
        if sets_feedback(updates[k]) && (forall|j: int|
            k < j < updates.len() ==> !sets_feedback(#[trigger] updates[j])) {
            assert forall|j: int| k < j < front.len() implies !sets_feedback(
                #[trigger] front[j],
            ) by {
                assert(front[j] == updates[j]);
            }
            assert(!sets_feedback(updates[last]));
        }
    }
}

/// The status after the overlay is that of the last update, and an overlay
/// field that no update carries stays as the root snapshot has it.
pub proof fn lemma_overlay_status_and_untouched(d: DeliveryView, updates: Seq<EventView>)
    ensures
        updates.len() > 0 && updates.last().payload is Update ==> overlay_all(d, updates).status
            == updates.last().payload->Update_0.status,
        (forall|j: int| 0 <= j < updates.len() ==> !sets_accepted_bid(#[trigger] updates[j]))
            ==> overlay_all(d, updates).accepted_bid == d.accepted_bid,
        (forall|j: int| 0 <= j < updates.len() ==> !sets_proof(#[trigger] updates[j]))
            ==> overlay_all(d, updates).proof_of_delivery == d.proof_of_delivery,
        (forall|j: int| 0 <= j < updates.len() ==> !sets_completed_at(#[trigger] updates[j]))
            ==> overlay_all(d, updates).completed_at == d.completed_at,
        (forall|j: int| 0 <= j < updates.len() ==> !sets_rating(#[trigger] updates[j]))
            ==> overlay_all(d, updates).sender_rating == d.sender_rating,
        (forall|j: int| 0 <= j < updates.len() ==> !sets_feedback(#[trigger] updates[j]))
            ==> overlay_all(d, updates).sender_feedback == d.sender_feedback,
        overlay_all(d, updates).id == d.id,
        overlay_all(d, updates).sender == d.sender,
        overlay_all(d, updates).pickup == d.pickup,
        overlay_all(d, updates).dropoff == d.dropoff,
        overlay_all(d, updates).packages == d.packages,
        overlay_all(d, updates).offer_amount == d.offer_amount,
        overlay_all(d, updates).insurance_amount == d.insurance_amount,
        overlay_all(d, updates).time_window == d.time_window,
        overlay_all(d, updates).expires_at == d.expires_at,
        overlay_all(d, updates).created_at == d.created_at,
        overlay_all(d, updates).distance_meters == d.distance_meters,
    decreases updates.len(),
{
    if updates.len() > 0 {
        let front = updates.drop_last();
        let last = updates.len() - 1;
        assert(updates.last() == updates[last]);
        lemma_overlay_status_and_untouched(d, front);
        assert forall|j: int| 0 <= j < front.len() implies front[j] == updates[j] by {}
    }
}

/// Laying updates over a delivery one list after the other is laying their
/// concatenation over it.
pub proof fn lemma_overlay_all_concat(d: DeliveryView, a: Seq<EventView>, b: Seq<EventView>)
    ensures
        overlay_all(d, a + b) == overlay_all(overlay_all(d, a), b),
    decreases b.len(),
{
    if b.len() == 0 {
        assert(a + b =~= a);
    } else {
        lemma_overlay_all_concat(d, a, b.drop_last());
        assert((a + b).drop_last() =~= a + b.drop_last());
        assert((a + b).last() == b.last());
    }
}

/// Laying the update of an event over a delivery a second time changes
/// nothing.
pub proof fn lemma_overlay_event_twice(d: DeliveryView, e: EventView)
    ensures
        overlay_event(overlay_event(d, e), e) == overlay_event(d, e),
{
}

/// The order in which status events are applied is a strict weak order.
pub proof fn lemma_update_order_is_strict_weak()
    ensures
        strict_weak_order(update_order()),
{
    let before = update_order();
    assert forall|a: EventView| !#[trigger] before(a, a) by {
        lemma_text_before_total(a.id, a.id);
    }
    assert forall|a: EventView, b: EventView, c: EventView| #[trigger]
        before(a, b) && #[trigger] before(b, c) implies before(a, c) by {
        if update_time(a) == update_time(b) && update_time(b) == update_time(c) {
            lemma_text_before_transitive(a.id, b.id, c.id);
        }
    }
    assert forall|a: EventView, b: EventView, c: EventView| !#[trigger] before(a, b) && !#[trigger]
    before(b, c) implies !before(a, c) by {
        lemma_text_before_total(a.id, b.id);
        lemma_text_before_total(b.id, c.id);
        if text_before(b.id, a.id) && text_before(a.id, c.id) {
            lemma_text_before_transitive(b.id, a.id, c.id);
        }
    }
}

/// The order in which the status updates are applied does not depend on
/// the arrangement of the events.
pub proof fn lemma_ordered_updates_permutation(
    s1: Seq<EventView>,
    s2: Seq<EventView>,
    id: Seq<char>,
)
    requires
        s1.to_multiset() == s2.to_multiset(),
        ids_identify(s1),
    ensures
        ordered_updates(s1, id) == ordered_updates(s2, id),
{
    let f1 = s1.filter(updates_of(id));
    let f2 = s2.filter(updates_of(id));
    let x = ordered_updates(s1, id);
    let y = ordered_updates(s2, id);
    lemma_filter_permutation(s1, s2, updates_of(id));
    lemma_update_order_is_strict_weak();
    lemma_sort_by_order(f1, update_order());
    lemma_sort_by_order(f2, update_order());
    lemma_same_members(x, f1);
    assert forall|i: int, j: int|
        0 <= i < x.len() && 0 <= j < x.len() && !(update_order())(x[i], x[j]) && !(update_order())(
            x[j],
            x[i],
        ) implies #[trigger] x[i] == #[trigger] x[j] by {
        lemma_text_before_total(x[i].id, x[j].id);
        assert(x.contains(x[i]));
        assert(x.contains(x[j]));
        assert(f1.contains(x[i]));
        assert(f1.contains(x[j]));
        s1.lemma_filter_contains_rev(updates_of(id), x[i]);
        s1.lemma_filter_contains_rev(updates_of(id), x[j]);
        let a = choose|a: int| 0 <= a < s1.len() && s1[a] == x[i];
        let b = choose|b: int| 0 <= b < s1.len() && s1[b] == x[j];
        assert(update_precedes(x[i], x[j]) == (update_order())(x[i], x[j]));
        assert(update_precedes(x[j], x[i]) == (update_order())(x[j], x[i]));
        assert(s1[a].id == s1[b].id);
    }
    lemma_ordered_unique(x, y, update_order());
}

/// A second copy of a status event changes nothing of the delivery that
/// the updates give, where an event identifier stands for one event.
pub proof fn lemma_duplicate_keeps_overlay(
    d: DeliveryView,
    events: Seq<EventView>,
    e: EventView,
    id: Seq<char>,
)
    requires
        events.contains(e),
        ids_identify(events),
    ensures
        overlay_all(d, ordered_updates(events.push(e), id)) == overlay_all(
            d,
            ordered_updates(events, id),
        ),
{
    let f = events.filter(updates_of(id));
    events.lemma_filter_push(e, updates_of(id));
    if (updates_of(id))(e) {
        let before = update_order();
        let s = sort_by_order(f, before);
        assert(f.push(e).drop_last() =~= f);
        let p = insertion_point(s, e, before);
        lemma_update_order_is_strict_weak();
        lemma_sort_by_order(f, before);
        lemma_insertion_point(s, e, before);
        lemma_same_members(s, f);
        let k = choose|k: int| 0 <= k < events.len() && events[k] == e;
        events.lemma_filter_contains(updates_of(id), k);
        assert(s.contains(e));
        let q = choose|q: int| 0 <= q < s.len() && s[q] == e;
        // the copy goes in right behind an event that ties with it
        if q >= p {
            assert(before(e, s[q]));
        }
        let last = s[p - 1];
        assert(!before(e, last));
        if q < p - 1 {
            assert(!before(s[p - 1], s[q]));
        }
        assert(update_precedes(e, last) == before(e, last));
        assert(update_precedes(last, e) == before(last, e));
        lemma_text_before_total(e.id, last.id);
        assert(s.contains(last));
        assert(f.contains(last));
        events.lemma_filter_contains_rev(updates_of(id), last);
        let m = choose|m: int| 0 <= m < events.len() && events[m] == last;
        assert(events[m].id == events[k].id);
        assert(last == e);
        // so it is laid over the delivery twice in a row
        let head = s.take(p);
        let tail = s.skip(p);
        assert(s =~= head + tail);
        assert(s.insert(p, e) =~= head.push(e) + tail);
        lemma_overlay_all_concat(d, head, tail);
        lemma_overlay_all_concat(d, head.push(e), tail);
        assert(head.push(e).drop_last() =~= head);
        assert(head.last() == e);
        lemma_overlay_event_twice(overlay_all(d, head.drop_last()), e);
    }
}

} // verus!
