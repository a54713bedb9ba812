//! Rebuilding a delivery from the log: the newest root snapshot, the status
//! updates laid over it in the order of their timestamps, and the bids, one
//! per bid identifier, in the order of their creation.

use vstd::prelude::*;
use crate::events::{has_tag, has_tag_spec, EventView, LogEvent, Payload, PayloadView};
use crate::model::{
    copy_opt_proof, BidView, DeliveryBid, DeliveryRequest, DeliveryView, StatusUpdate, UpdateView,
};
use crate::ordering::{insert_in_order, insertion_point, sort_by_order};
use crate::status::{kind_status, kind_status_spec, KIND_BID, KIND_DELIVERY};
use crate::text::{comes_before, copy_opt_text, same_text, text_before};

verus! {

/// The event is a root snapshot of the delivery `id`: of the snapshot
/// kind, tagged `d` with the identifier, and holding a delivery.
pub open spec fn is_root_of(e: EventView, id: Seq<char>) -> bool {
    &&& e.kind == KIND_DELIVERY
    &&& has_tag_spec(e.tags, "d"@, id)
    &&& e.payload is Delivery
}

/// The event is a status update of the delivery `id`: of a status kind,
/// tagged `delivery_id` with the identifier, and holding an update.
pub open spec fn is_update_of(e: EventView, id: Seq<char>) -> bool {
    &&& kind_status_spec(e.kind) is Some
    &&& has_tag_spec(e.tags, "delivery_id"@, id)
    &&& e.payload is Update
}

/// The event is a bid on the delivery `id`: of the bid kind, tagged
/// `delivery_id` with the identifier, and holding a bid.
pub open spec fn is_bid_of(e: EventView, id: Seq<char>) -> bool {
    &&& e.kind == KIND_BID
    &&& has_tag_spec(e.tags, "delivery_id"@, id)
    &&& e.payload is Bid
}

/// The delivery that a root snapshot holds.
pub open spec fn delivery_of(e: EventView) -> DeliveryView {
    e.payload->Delivery_0
}

/// Event `a` is preferred to event `b`: it was published later, or at the
/// same time under the smaller event identifier.
pub open spec fn newer_event(a: EventView, b: EventView) -> bool {
    a.created_at > b.created_at || (a.created_at == b.created_at && text_before(a.id, b.id))
}

/// The test for a root snapshot of the delivery `id`.
pub open spec fn roots_of(id: Seq<char>) -> spec_fn(EventView) -> bool {
    |e: EventView| is_root_of(e, id)
}

/// The preferred one among the events of `events` that pass the test
/// `wanted`: one that no other is preferred to, the earliest such in
/// `events`.
pub open spec fn latest_matching(events: Seq<EventView>, wanted: spec_fn(EventView) -> bool) -> Option<
    EventView,
>
    decreases events.len(),
{
    if events.len() == 0 {
        None
    } else {
        let rest = latest_matching(events.drop_last(), wanted);
        let e = events.last();
        if wanted(e) && (rest is None || newer_event(e, rest->Some_0)) {
            Some(e)
        } else {
            rest
        }
    }
}

/// The preferred root snapshot of the delivery `id` among `events`.
pub open spec fn latest_root(events: Seq<EventView>, id: Seq<char>) -> Option<EventView> {
    latest_matching(events, roots_of(id))
}

fn event_is_root_of(e: &LogEvent, id: &str) -> (r: bool)
    ensures
        r == is_root_of(e@, id@),
{
    e.kind == KIND_DELIVERY && has_tag(&e.tags, "d", id) && matches!(e.payload, Payload::Delivery(_))
}

fn event_is_update_of(e: &LogEvent, id: &str) -> (r: bool)
    ensures
        r == is_update_of(e@, id@),
{
    kind_status(e.kind).is_some() && has_tag(&e.tags, "delivery_id", id) && matches!(
        e.payload,
        Payload::Update(_)
    )
}

fn event_is_bid_of(e: &LogEvent, id: &str) -> (r: bool)
    ensures
        r == is_bid_of(e@, id@),
{
    e.kind == KIND_BID && has_tag(&e.tags, "delivery_id", id) && matches!(e.payload, Payload::Bid(_))
}

/// Whether event `a` is preferred to event `b`.
pub fn event_is_newer(a: &LogEvent, b: &LogEvent) -> (r: bool)
    ensures
        r == newer_event(a@, b@),
{
    a.created_at > b.created_at || (a.created_at == b.created_at && comes_before(
        a.id.as_str(),
        b.id.as_str(),
    ))
}

/// The preferred root snapshot of the delivery `id` among `events`.
pub fn find_latest_root<'a>(events: &'a Vec<LogEvent>, id: &str) -> (r: Option<&'a LogEvent>)
    ensures
        r.deep_view() == latest_root(events.deep_view(), id@),
{
    let mut best: Option<&LogEvent> = None;
    let mut i: usize = 0;
    while i < events.len()
        invariant
            i <= events.len(),
            best.deep_view() == latest_root(events.deep_view().take(i as int), id@),
        decreases events.len() - i,
    {
        let e = &events[i];
        proof {
            let views = events.deep_view();
            assert(views.take(i as int + 1).drop_last() =~= views.take(i as int));
            assert(views.take(i as int + 1).last() == e@);
        }
        if event_is_root_of(e, id) {
            let preferred = match best {
                None => true,
                Some(b) => event_is_newer(e, b),
            };
            if preferred {
                best = Some(e);
            }
        }
        i += 1;
    }
    assert(events.deep_view().take(events.len() as int) =~= events.deep_view());
    best
}

/// The time by which a status event is ordered: the timestamp of its update.
pub open spec fn update_time(e: EventView) -> i64 {
    match e.payload {
        PayloadView::Update(u) => u.timestamp,
        _ => 0,
    }
}

/// The time by which a bid event is ordered: the creation time of its bid.
pub open spec fn bid_time(e: EventView) -> i64 {
    match e.payload {
        PayloadView::Bid(b) => b.created_at,
        _ => 0,
    }
}

/// The identifier of the bid that a bid event holds.
pub open spec fn bid_id(e: EventView) -> Seq<char> {
    match e.payload {
        PayloadView::Bid(b) => b.id,
        _ => Seq::empty(),
    }
}

/// Status event `a` is applied before `b`: its timestamp is earlier, or the
/// same with the smaller event identifier.
pub open spec fn update_precedes(a: EventView, b: EventView) -> bool {
    update_time(a) < update_time(b) || (update_time(a) == update_time(b) && text_before(a.id, b.id))
}

/// Bid event `a` is listed before `b`: its bid was created earlier, or at
/// the same time under the smaller bid identifier.
pub open spec fn bid_precedes(a: EventView, b: EventView) -> bool {
    bid_time(a) < bid_time(b) || (bid_time(a) == bid_time(b) && text_before(bid_id(a), bid_id(b)))
}

/// The order in which status events are applied.
pub open spec fn update_order() -> spec_fn(EventView, EventView) -> bool {
    |a: EventView, b: EventView| update_precedes(a, b)
}

/// The order in which bids are listed.
pub open spec fn bid_order() -> spec_fn(EventView, EventView) -> bool {
    |a: EventView, b: EventView| bid_precedes(a, b)
}

/// The test for a status update of the delivery `id`.
pub open spec fn updates_of(id: Seq<char>) -> spec_fn(EventView) -> bool {
    |e: EventView| is_update_of(e, id)
}

/// The status events of the delivery `id` among `events`, in the order in
/// which they are applied.
pub open spec fn ordered_updates(events: Seq<EventView>, id: Seq<char>) -> Seq<EventView> {
    sort_by_order(events.filter(updates_of(id)), update_order())
}

/// The two orders that events are sorted by.
#[derive(Clone, Copy, Debug, PartialEq, Eq, Structural)]
pub enum EventOrder {
    UpdateTime,
    BidTime,
}

impl EventOrder {
    /// The relation that the order stands for.
    pub open spec fn relation(self) -> spec_fn(EventView, EventView) -> bool {
        match self {
            EventOrder::UpdateTime => update_order(),
            EventOrder::BidTime => bid_order(),
        }
    }
}

fn event_update_time(e: &LogEvent) -> (r: i64)
    ensures
        r == update_time(e@),
{
    match &e.payload {
        Payload::Update(u) => u.timestamp,
        _ => 0,
    }
}

fn event_bid_time(e: &LogEvent) -> (r: i64)
    ensures
        r == bid_time(e@),
{
    match &e.payload {
        Payload::Bid(b) => b.created_at,
        _ => 0,
    }
}

fn event_bid_id<'a>(e: &'a LogEvent) -> (r: &'a str)
    ensures
        r@ == bid_id(e@),
{
    match &e.payload {
        Payload::Bid(b) => b.id.as_str(),
        _ => {
            proof {
                reveal_strlit("");
            }
            assert(""@ =~= Seq::<char>::empty());
            ""
        },
    }
}

fn event_precedes(order: EventOrder, a: &LogEvent, b: &LogEvent) -> (r: bool)
    ensures
        r == (order.relation())(a@, b@),
{
    match order {
        EventOrder::UpdateTime => {
            let ta = event_update_time(a);
            let tb = event_update_time(b);
            ta < tb || (ta == tb && comes_before(a.id.as_str(), b.id.as_str()))
        },
        EventOrder::BidTime => {
            let ta = event_bid_time(a);
            let tb = event_bid_time(b);
            ta < tb || (ta == tb && comes_before(event_bid_id(a), event_bid_id(b)))
        },
    }
}

/// Puts `e` into the ordered list `sorted` at its place under `order`.
pub fn insert_event<'a>(sorted: &mut Vec<&'a LogEvent>, e: &'a LogEvent, order: EventOrder)
    ensures
        final(sorted).deep_view() == insert_in_order(old(sorted).deep_view(), e@, order.relation()),
{
    let ghost before = order.relation();
    let ghost views = sorted.deep_view();
    let mut k: usize = sorted.len();
    proof {
        assert(views.take(k as int) =~= views);
    }
    while k > 0 && event_precedes(order, e, sorted[k - 1])
        invariant
            k <= sorted.len(),
            *sorted == *old(sorted),
            views == sorted.deep_view(),
            before == order.relation(),
            insertion_point(views, e@, before) == insertion_point(views.take(k as int), e@, before),
        decreases k,
    {
        proof {
            assert(views.take(k as int).drop_last() =~= views.take(k as int - 1));
            assert(views.take(k as int).last() == sorted@[k as int - 1].deep_view());
        }
        k -= 1;
    }
    proof {
        if k > 0 {
            assert(views.take(k as int).last() == sorted@[k as int - 1].deep_view());
        }
    }
    sorted.insert(k, e);
    assert(sorted.deep_view() =~= views.insert(k as int, e@));
}

/// The status events of the delivery `id`, in the order in which they are
/// applied.
pub fn collect_updates<'a>(events: &'a Vec<LogEvent>, id: &str) -> (r: Vec<&'a LogEvent>)
    ensures
        r.deep_view() == ordered_updates(events.deep_view(), id@),
{
    let mut sorted: Vec<&LogEvent> = Vec::new();
    let mut i: usize = 0;
    assert(events.deep_view().take(0).filter(updates_of(id@)) =~= Seq::<EventView>::empty()) by {
        reveal(Seq::filter);
    }
    assert(sorted.deep_view() =~= Seq::<EventView>::empty());
    while i < events.len()
        invariant
            i <= events.len(),
            sorted.deep_view() == sort_by_order(
                events.deep_view().take(i as int).filter(updates_of(id@)),
                update_order(),
            ),
        decreases events.len() - i,
    {
        let e = &events[i];
        proof {
            let views = events.deep_view();
            let seen = views.take(i as int);
            assert(views.take(i as int + 1) =~= seen.push(e@));
            seen.lemma_filter_push(e@, updates_of(id@));
            if is_update_of(e@, id@) {
                assert(seen.filter(updates_of(id@)).push(e@).drop_last() =~= seen.filter(
                    updates_of(id@),
                ));
            }
        }
        if event_is_update_of(e, id) {
            insert_event(&mut sorted, e, EventOrder::UpdateTime);
        }
        i += 1;
    }
    assert(events.deep_view().take(events.len() as int) =~= events.deep_view());
    sorted
}

/// `d` with the update `u` laid over it: the status is taken over, and so
/// is each overlay field that `u` carries; a field that `u` leaves out
/// stays as it is in `d`.
pub open spec fn overlay(d: DeliveryView, u: UpdateView) -> DeliveryView {
    DeliveryView {
        status: u.status,
        proof_of_delivery: if u.proof_of_delivery is Some {
            u.proof_of_delivery
        } else {
            d.proof_of_delivery
        },
        completed_at: if u.completed_at is Some {
            u.completed_at
        } else {
            d.completed_at
        },
        accepted_bid: if u.accepted_bid is Some {
            u.accepted_bid
        } else {
            d.accepted_bid
        },
        sender_rating: if u.sender_rating is Some {
            u.sender_rating
        } else {
            d.sender_rating
        },
        sender_feedback: if u.sender_feedback is Some {
            u.sender_feedback
        } else {
            d.sender_feedback
        },
        ..d
    }
}

/// `d` with the update of the event `e` laid over it; an event that holds
/// no update changes nothing.
pub open spec fn overlay_event(d: DeliveryView, e: EventView) -> DeliveryView {
    match e.payload {
        PayloadView::Update(u) => overlay(d, u),
        _ => d,
    }
}

/// `d` with the updates of `updates` laid over it one after the other, the
/// first of the sequence first.
pub open spec fn overlay_all(d: DeliveryView, updates: Seq<EventView>) -> DeliveryView
    decreases updates.len(),
{
    if updates.len() == 0 {
        d
    } else {
        overlay_event(overlay_all(d, updates.drop_last()), updates.last())
    }
}

/// Lays `update` over `delivery`.
pub fn apply_update(delivery: &mut DeliveryRequest, update: &StatusUpdate)
    ensures
        final(delivery)@ == overlay(old(delivery)@, update@),
{
    delivery.status = update.status;
    if update.proof_of_delivery.is_some() {
        delivery.proof_of_delivery = copy_opt_proof(&update.proof_of_delivery);
    }
    if update.completed_at.is_some() {
        delivery.completed_at = update.completed_at;
    }
    if update.accepted_bid.is_some() {
        delivery.accepted_bid = copy_opt_text(&update.accepted_bid);
    }
    if update.sender_rating.is_some() {
        delivery.sender_rating = update.sender_rating;
    }
    if update.sender_feedback.is_some() {
        delivery.sender_feedback = copy_opt_text(&update.sender_feedback);
    }
}

/// Lays the updates of `updates` over `delivery`, the first of the list first.
pub fn apply_updates(delivery: &mut DeliveryRequest, updates: &Vec<&LogEvent>)
    ensures
        final(delivery)@ == overlay_all(old(delivery)@, updates.deep_view()),
{
    let mut i: usize = 0;
    while i < updates.len()
        invariant
            i <= updates.len(),
            delivery@ == overlay_all(old(delivery)@, updates.deep_view().take(i as int)),
        decreases updates.len() - i,
    {
        proof {
            let views = updates.deep_view();
            assert(views.take(i as int + 1).drop_last() =~= views.take(i as int));
            assert(views.take(i as int + 1).last() == updates@[i as int]@);
        }
        match &updates[i].payload {
            Payload::Update(u) => {
                apply_update(delivery, u);
            },
            _ => {},
        }
        i += 1;
    }
    assert(updates.deep_view().take(updates.len() as int) =~= updates.deep_view());
}

/// The test for a bid on the delivery `id`.
pub open spec fn bids_of(id: Seq<char>) -> spec_fn(EventView) -> bool {
    |e: EventView| is_bid_of(e, id)
}

/// Among events for the same bid, `a` is preferred to `b`: its bid carries
/// the later creation time, or the same with the smaller event identifier.
pub open spec fn better_bid(a: EventView, b: EventView) -> bool {
    bid_time(a) > bid_time(b) || (bid_time(a) == bid_time(b) && text_before(a.id, b.id))
}

/// The event at `i` is the one kept for its bid: it is preferred to every
/// earlier event of the same bid, and no later one is preferred to it.
pub open spec fn kept_for_its_bid(bids: Seq<EventView>, i: int) -> bool {
    forall|j: int|
        0 <= j < bids.len() && bid_id(#[trigger] bids[j]) == bid_id(bids[i]) ==> if j < i {
            better_bid(bids[i], bids[j])
        } else {
            !better_bid(bids[j], bids[i])
        }
}

/// The kept events among the first `n` of `bids`, in their order in `bids`.
pub open spec fn kept_among(bids: Seq<EventView>, n: int) -> Seq<EventView>
    decreases n,
{
    if n <= 0 {
        Seq::empty()
    } else if kept_for_its_bid(bids, n - 1) {
        kept_among(bids, n - 1).push(bids[n - 1])
    } else {
        kept_among(bids, n - 1)
    }
}

/// One event for each bid of `bids`.
pub open spec fn distinct_bids(bids: Seq<EventView>) -> Seq<EventView> {
    kept_among(bids, bids.len() as int)
}

/// The bid that an event holds, where it holds one.
pub open spec fn held_bid() -> spec_fn(EventView) -> Option<BidView> {
    |e: EventView|
        match e.payload {
            PayloadView::Bid(b) => Some(b),
            _ => None,
        }
}

/// The bids that the events of `s` hold, in the order of `s`.
pub open spec fn bid_records(s: Seq<EventView>) -> Seq<BidView> {
    s.filter_map(held_bid())
}

/// The bid events of the delivery `id` that are kept, one for each bid, in
/// the order in which the bids are listed.
pub open spec fn merged_bid_events(events: Seq<EventView>, id: Seq<char>) -> Seq<EventView> {
    sort_by_order(distinct_bids(events.filter(bids_of(id))), bid_order())
}

/// The bids of the delivery `id`: one for each bid identifier, in the order
/// of their creation.
pub open spec fn merged_bids(events: Seq<EventView>, id: Seq<char>) -> Seq<BidView> {
    bid_records(merged_bid_events(events, id))
}

fn bid_is_better(a: &LogEvent, b: &LogEvent) -> (r: bool)
    ensures
        r == better_bid(a@, b@),
{
    let ta = event_bid_time(a);
    let tb = event_bid_time(b);
    ta > tb || (ta == tb && comes_before(a.id.as_str(), b.id.as_str()))
}

fn select_bid_events<'a>(events: &'a Vec<LogEvent>, id: &str) -> (r: Vec<&'a LogEvent>)
    ensures
        r.deep_view() == events.deep_view().filter(bids_of(id@)),
{
    let mut out: Vec<&LogEvent> = Vec::new();
    let mut i: usize = 0;
    assert(events.deep_view().take(0).filter(bids_of(id@)) =~= Seq::<EventView>::empty()) by {
        reveal(Seq::filter);
    }
    assert(out.deep_view() =~= Seq::<EventView>::empty());
    while i < events.len()
        invariant
            i <= events.len(),
            out.deep_view() == events.deep_view().take(i as int).filter(bids_of(id@)),
        decreases events.len() - i,
    {
        let e = &events[i];
        let ghost before = out.deep_view();
        proof {
            let views = events.deep_view();
            assert(views.take(i as int + 1) =~= views.take(i as int).push(e@));
            views.take(i as int).lemma_filter_push(e@, bids_of(id@));
        }
        if event_is_bid_of(e, id) {
            out.push(e);
            assert(out.deep_view() =~= before.push(e@));
        }
        i += 1;
    }
    assert(events.deep_view().take(events.len() as int) =~= events.deep_view());
    out
}

fn bid_is_kept(bids: &Vec<&LogEvent>, i: usize) -> (r: bool)
    requires
        i < bids.len(),
    ensures
        r == kept_for_its_bid(bids.deep_view(), i as int),
{
    let ghost views = bids.deep_view();
    let mine = event_bid_id(bids[i]);
    let mut j: usize = 0;
    while j < bids.len()
        invariant
            j <= bids.len(),
            i < bids.len(),
            views == bids.deep_view(),
            mine@ == bid_id(views[i as int]),
            forall|k: int|
                0 <= k < j && bid_id(#[trigger] views[k]) == bid_id(views[i as int]) ==> if k < i {
                    better_bid(views[i as int], views[k])
                } else {
                    !better_bid(views[k], views[i as int])
                },
        decreases bids.len() - j,
    {
        assert(views[j as int] == bids@[j as int]@);
        assert(views[i as int] == bids@[i as int]@);
        if same_text(event_bid_id(bids[j]), mine) {
            assert(bid_id(views[j as int]) == bid_id(views[i as int]));
            if j < i {
                if !bid_is_better(bids[i], bids[j]) {
                    return false;
                }
            } else {
                if bid_is_better(bids[j], bids[i]) {
                    return false;
                }
            }
        }
        j += 1;
    }
    true
}

fn select_distinct_bids<'a>(bids: &Vec<&'a LogEvent>) -> (r: Vec<&'a LogEvent>)
    ensures
        r.deep_view() == distinct_bids(bids.deep_view()),
{
    let mut out: Vec<&LogEvent> = Vec::new();
    let mut i: usize = 0;
    assert(out.deep_view() =~= Seq::<EventView>::empty());
    while i < bids.len()
        invariant
            i <= bids.len(),
            out.deep_view() == kept_among(bids.deep_view(), i as int),
        decreases bids.len() - i,
    {
        let ghost before = out.deep_view();
        if bid_is_kept(bids, i) {
            out.push(bids[i]);
            assert(out.deep_view() =~= before.push(bids.deep_view()[i as int]));
        }
        i += 1;
    }
    out
}

/// The events of `list` in the order `order`; events that tie keep the
/// order they had in `list`.
pub fn sort_events<'a>(list: &Vec<&'a LogEvent>, order: EventOrder) -> (r: Vec<&'a LogEvent>)
    ensures
        r.deep_view() == sort_by_order(list.deep_view(), order.relation()),
{
    let mut sorted: Vec<&LogEvent> = Vec::new();
    let mut i: usize = 0;
    assert(sorted.deep_view() =~= Seq::<EventView>::empty());
    while i < list.len()
        invariant
            i <= list.len(),
            sorted.deep_view() == sort_by_order(list.deep_view().take(i as int), order.relation()),
        decreases list.len() - i,
    {
        proof {
            let views = list.deep_view();
            assert(views.take(i as int + 1).drop_last() =~= views.take(i as int));
            assert(views.take(i as int + 1).last() == list@[i as int]@);
        }
        insert_event(&mut sorted, list[i], order);
        i += 1;
    }
    assert(list.deep_view().take(list.len() as int) =~= list.deep_view());
    sorted
}

fn copy_bid_records(list: &Vec<&LogEvent>) -> (r: Vec<DeliveryBid>)
    ensures
        r.deep_view() == bid_records(list.deep_view()),
{
    let mut out: Vec<DeliveryBid> = Vec::new();
    let mut i: usize = 0;
    assert(out.deep_view() =~= Seq::<BidView>::empty());
    while i < list.len()
        invariant
            i <= list.len(),
            out.deep_view() == bid_records(list.deep_view().take(i as int)),
        decreases list.len() - i,
    {
        let ghost before = out.deep_view();
        proof {
            let views = list.deep_view();
            views.lemma_filter_map_take_succ(held_bid(), i as int);
            assert(views[i as int] == list@[i as int]@);
        }
        match &list[i].payload {
            Payload::Bid(b) => {
                let copy = b.duplicate();
                out.push(copy);
                assert(out.deep_view() =~= before + seq![b@]);
            },
            _ => {
                assert(before + Seq::<BidView>::empty() =~= before);
            },
        }
        i += 1;
    }
    assert(list.deep_view().take(list.len() as int) =~= list.deep_view());
    out
}

/// The bids of the delivery `id` among `events`: one for each bid
/// identifier, in the order of their creation.
pub fn merge_bids(events: &Vec<LogEvent>, id: &str) -> (r: Vec<DeliveryBid>)
    ensures
        r.deep_view() == merged_bids(events.deep_view(), id@),
        forall|p: int, q: int|
            0 <= p < q < r.len() ==> (#[trigger] r.deep_view()[p]).id != (
            #[trigger] r.deep_view()[q]).id && r.deep_view()[p].created_at
                <= r.deep_view()[q].created_at,
{
    proof {
        crate::bid_laws::lemma_merged_bids_distinct_and_ordered(events.deep_view(), id@);
    }
    let all = select_bid_events(events, id);
    let distinct = select_distinct_bids(&all);
    let sorted = sort_events(&distinct, EventOrder::BidTime);
    copy_bid_records(&sorted)
}

/// The preferred event, where there is one, is an event of `events` that
/// passes the test, and no event of `events` that passes the test is
/// preferred to it. There is none exactly when no event passes the test.
pub proof fn lemma_latest_matching(events: Seq<EventView>, wanted: spec_fn(EventView) -> bool)
    ensures
        latest_matching(events, wanted) matches Some(best) ==> {
            &&& events.contains(best)
            &&& wanted(best)
            &&& forall|i: int|
                0 <= i < events.len() && wanted(#[trigger] events[i]) ==> !newer_event(
                    events[i],
                    best,
                )
        },
        latest_matching(events, wanted) is None ==> forall|i: int|
            0 <= i < events.len() ==> !wanted(#[trigger] events[i]),
    decreases events.len(),
{
    if events.len() > 0 {
        let front = events.drop_last();
        let e = events.last();
        lemma_latest_matching(front, wanted);
        let rest = latest_matching(front, wanted);
        crate::text::lemma_text_before_total(e.id, e.id);
        match latest_matching(events, wanted) {
            Some(best) => {
                if best == e && wanted(e) && (rest is None || newer_event(e, rest->Some_0)) {
                    assert(events[events.len() - 1] == e);
                    assert forall|i: int|
                        0 <= i < events.len() && wanted(#[trigger] events[i]) implies !newer_event(
                        events[i],
                        best,
                    ) by {
                        if i < front.len() {
                            assert(events[i] == front[i]);
                            let old_best = rest->Some_0;
                            lemma_newer_event_order(events[i], old_best, e);
                        }
                    }
                } else {
                    assert(rest == Some(best));
                    let k = choose|k: int| 0 <= k < front.len() && front[k] == best;
                    assert(events[k] == best);
                    assert forall|i: int|
                        0 <= i < events.len() && wanted(#[trigger] events[i]) implies !newer_event(
                        events[i],
                        best,
                    ) by {
                        if i < front.len() {
                            assert(events[i] == front[i]);
                        }
                    }
                }
            },
            None => {
                assert forall|i: int| 0 <= i < events.len() implies !wanted(
                    #[trigger] events[i],
                ) by {
                    if i < front.len() {
                        assert(events[i] == front[i]);
                    }
                }
            },
        }
    }
}

/// Preference among events carries over: an event that is not preferred
/// to `b`, while `c` is preferred to `b`, is not preferred to `c`.
pub proof fn lemma_newer_event_order(a: EventView, b: EventView, c: EventView)
    requires
        !newer_event(a, b),
        newer_event(c, b),
    ensures
        !newer_event(a, c),
{
    crate::text::lemma_text_before_total(a.id, b.id);
    crate::text::lemma_text_before_total(a.id, c.id);
    crate::text::lemma_text_before_total(c.id, b.id);
    if a.created_at == c.created_at && c.created_at == b.created_at && text_before(a.id, c.id) {
        crate::text::lemma_text_before_transitive(a.id, c.id, b.id);
    }
}

/// The delivery `id` as `events` give it: the preferred root snapshot with
/// the status updates laid over it in their order and the merged bids
/// attached; nothing where `events` hold no root snapshot of it.
pub open spec fn reconstruct_spec(events: Seq<EventView>, id: Seq<char>) -> Option<DeliveryView> {
    match latest_root(events, id) {
        None => None,
        Some(root) => Some(
            DeliveryView {
                bids: merged_bids(events, id),
                ..overlay_all(delivery_of(root), ordered_updates(events, id))
            },
        ),
    }
}

/// Rebuilds the delivery `id` from the events of the log: `events` holds
/// whatever the queries for root snapshots, status updates and bids
/// returned, in any order, with whatever else came along. There is a
/// delivery exactly when `events` holds a root snapshot of it; its bids are
/// distinct and in the order of their creation.
pub fn reconstruct(events: &Vec<LogEvent>, id: &str) -> (r: Option<DeliveryRequest>)
    ensures
        r.deep_view() == reconstruct_spec(events.deep_view(), id@),
        r matches Some(d) ==> crate::machine::bids_in_order(d@),
        r is Some <==> exists|i: int|
            0 <= i < events.len() && is_root_of(#[trigger] events.deep_view()[i], id@),
{
    proof {
        lemma_latest_matching(events.deep_view(), roots_of(id@));
        if latest_root(events.deep_view(), id@) is Some {
            let root = latest_root(events.deep_view(), id@)->Some_0;
            let k = choose|k: int|
                0 <= k < events.deep_view().len() && events.deep_view()[k] == root;
            assert(is_root_of(events.deep_view()[k], id@));
        }
    }
    match find_latest_root(events, id) {
        None => None,
        Some(root) => match &root.payload {
            Payload::Delivery(d) => {
                let mut delivery = d.duplicate();
                let updates = collect_updates(events, id);
                apply_updates(&mut delivery, &updates);
                delivery.bids = merge_bids(events, id);
                Some(delivery)
            },
            _ => None,
        },
    }
}

} // verus!
