//! Reading the whole log: every delivery that it holds, the deliveries of
//! one status, and the profile of a user.

use vstd::prelude::*;
use crate::events::{has_tag, has_tag_spec, EventView, LogEvent, Payload, PayloadView};
use crate::model::{DeliveryRequest, DeliveryView, ProfileView, UserProfile, fresh_profile};
use crate::ordering::{insert_in_order, insertion_point};
use crate::reconstruct::{event_is_newer, latest_matching, reconstruct, reconstruct_spec};
use crate::status::{status_matches, status_name_spec, KIND_DELIVERY, KIND_PROFILE};
use crate::text::{comes_before, same_ignoring_case, same_text, text_before};

verus! {

/// The event is a profile of the user `npub`: of the profile kind, tagged
/// `d` with the user's key, and holding a profile.
pub open spec fn is_profile_of(e: EventView, npub: Seq<char>) -> bool {
    &&& e.kind == KIND_PROFILE
    &&& has_tag_spec(e.tags, "d"@, npub)
    &&& e.payload is Profile
}

/// The test for a profile of the user `npub`.
pub open spec fn profiles_of(npub: Seq<char>) -> spec_fn(EventView) -> bool {
    |e: EventView| is_profile_of(e, npub)
}

/// The profile of the user `npub` as `events` give it: the one published
/// last, or the profile of a user of whom nothing is known.
pub open spec fn profile_spec(events: Seq<EventView>, npub: Seq<char>) -> ProfileView {
    match latest_matching(events, profiles_of(npub)) {
        Some(e) => match e.payload {
            PayloadView::Profile(p) => p,
            _ => fresh_profile(npub),
        },
        None => fresh_profile(npub),
    }
}

fn event_is_profile_of(e: &LogEvent, npub: &str) -> (r: bool)
    ensures
        r == is_profile_of(e@, npub@),
{
    e.kind == KIND_PROFILE && has_tag(&e.tags, "d", npub) && matches!(e.payload, Payload::Profile(_))
}

/// The profile of the user `npub` among the events of the log.
pub fn latest_profile(events: &Vec<LogEvent>, npub: &str) -> (r: UserProfile)
    ensures
        r@ == profile_spec(events.deep_view(), npub@),
{
    let mut best: Option<&LogEvent> = None;
    let mut i: usize = 0;
    while i < events.len()
        invariant
            i <= events.len(),
            best.deep_view() == latest_matching(
                events.deep_view().take(i as int),
                profiles_of(npub@),
            ),
        decreases events.len() - i,
    {
        let e = &events[i];
        proof {
            let views = events.deep_view();
            assert(views.take(i as int + 1).drop_last() =~= views.take(i as int));
            assert(views.take(i as int + 1).last() == e@);
        }
        if event_is_profile_of(e, npub) {
            let preferred = match best {
                None => true,
                Some(b) => event_is_newer(e, b),
            };
            if preferred {
                best = Some(e);
            }
        }
        i += 1;
    }
    assert(events.deep_view().take(events.len() as int) =~= events.deep_view());
    match best {
        Some(e) => match &e.payload {
            Payload::Profile(p) => p.duplicate(),
            _ => UserProfile::unseen(npub),
        },
        None => UserProfile::unseen(npub),
    }
}

/// The order on identifiers.
pub open spec fn text_order() -> spec_fn(Seq<char>, Seq<char>) -> bool {
    |a: Seq<char>, b: Seq<char>| text_before(a, b)
}

/// `ids` with `id` put in at its place, unless it is there already.
pub open spec fn with_id(ids: Seq<Seq<char>>, id: Seq<char>) -> Seq<Seq<char>> {
    if ids.contains(id) {
        ids
    } else {
        insert_in_order(ids, id, text_order())
    }
}

/// The identifiers of the deliveries of which `events` hold a snapshot,
/// each once, in ascending order.
pub open spec fn delivery_ids(events: Seq<EventView>) -> Seq<Seq<char>>
    decreases events.len(),
{
    if events.len() == 0 {
        Seq::empty()
    } else {
        let rest = delivery_ids(events.drop_last());
        let e = events.last();
        match e.payload {
            PayloadView::Delivery(d) => if e.kind == KIND_DELIVERY {
                with_id(rest, d.id)
            } else {
                rest
            },
            _ => rest,
        }
    }
}

/// The rebuilding of a delivery from `events`, as a function of its
/// identifier.
pub open spec fn rebuilt_from(events: Seq<EventView>) -> spec_fn(Seq<char>) -> Option<DeliveryView> {
    |id: Seq<char>| reconstruct_spec(events, id)
}

/// The deliveries of the identifiers `ids` as `events` give them, in the
/// order of `ids`; an identifier of which `events` hold no root snapshot
/// gives none.
pub open spec fn reconstruct_each(events: Seq<EventView>, ids: Seq<Seq<char>>) -> Seq<DeliveryView> {
    ids.filter_map(rebuilt_from(events))
}

/// Every delivery that `events` hold, in ascending order of identifier.
pub open spec fn reconstruct_all_spec(events: Seq<EventView>) -> Seq<DeliveryView> {
    reconstruct_each(events, delivery_ids(events))
}

fn add_id<'a>(ids: &mut Vec<&'a str>, id: &'a str)
    ensures
        final(ids).deep_view() == with_id(old(ids).deep_view(), id@),
{
    let ghost views = ids.deep_view();
    let mut j: usize = 0;
    while j < ids.len()
        invariant
            j <= ids.len(),
            *ids == *old(ids),
            views == ids.deep_view(),
            forall|k: int| 0 <= k < j ==> views[k] != id@,
        decreases ids.len() - j,
    {
        assert(views[j as int] == ids@[j as int]@);
        if same_text(ids[j], id) {
            return ;
        }
        j += 1;
    }
    let mut k: usize = ids.len();
    proof {
        assert(views.take(k as int) =~= views);
    }
    while k > 0 && comes_before(id, ids[k - 1])
        invariant
            k <= ids.len(),
            *ids == *old(ids),
            views == ids.deep_view(),
            insertion_point(views, id@, text_order()) == insertion_point(
                views.take(k as int),
                id@,
                text_order(),
            ),
        decreases k,
    {
        proof {
            assert(views.take(k as int).drop_last() =~= views.take(k as int - 1));
            assert(views.take(k as int).last() == ids@[k as int - 1]@);
        }
        k -= 1;
    }
    proof {
        if k > 0 {
            assert(views.take(k as int).last() == ids@[k as int - 1]@);
        }
    }
    ids.insert(k, id);
    assert(ids.deep_view() =~= views.insert(k as int, id@));
}

/// The identifiers of the deliveries of which `events` hold a snapshot.
pub fn list_delivery_ids<'a>(events: &'a Vec<LogEvent>) -> (r: Vec<&'a str>)
    ensures
        r.deep_view() == delivery_ids(events.deep_view()),
{
    let mut ids: Vec<&str> = Vec::new();
    let mut i: usize = 0;
    assert(ids.deep_view() =~= Seq::<Seq<char>>::empty());
    while i < events.len()
        invariant
            i <= events.len(),
            ids.deep_view() == delivery_ids(events.deep_view().take(i as int)),
        decreases events.len() - i,
    {
        let e = &events[i];
        proof {
            let views = events.deep_view();
            assert(views.take(i as int + 1).drop_last() =~= views.take(i as int));
            assert(views.take(i as int + 1).last() == e@);
        }
        match &e.payload {
            Payload::Delivery(d) => {
                if e.kind == KIND_DELIVERY {
                    add_id(&mut ids, d.id.as_str());
                }
            },
            _ => {},
        }
        i += 1;
    }
    assert(events.deep_view().take(events.len() as int) =~= events.deep_view());
    ids
}

/// Rebuilds every delivery that the events of the log hold.
pub fn reconstruct_all(events: &Vec<LogEvent>) -> (r: Vec<DeliveryRequest>)
    ensures
        r.deep_view() == reconstruct_all_spec(events.deep_view()),
{
    let ids = list_delivery_ids(events);
    let mut out: Vec<DeliveryRequest> = Vec::new();
    let mut i: usize = 0;
    assert(out.deep_view() =~= Seq::<DeliveryView>::empty());
    while i < ids.len()
        invariant
            i <= ids.len(),
            out.deep_view() == reconstruct_each(events.deep_view(), ids.deep_view().take(i as int)),
        decreases ids.len() - i,
    {
        let ghost before = out.deep_view();
        proof {
            let views = ids.deep_view();
            views.lemma_filter_map_take_succ(rebuilt_from(events.deep_view()), i as int);
            assert(views[i as int] == ids@[i as int]@);
        }
        match reconstruct(events, ids[i]) {
            Some(d) => {
                let ghost dv = d@;
                out.push(d);
                assert(out.deep_view() =~= before + seq![dv]);
            },
            None => {
                assert(before + Seq::<DeliveryView>::empty() =~= before);
            },
        }
        i += 1;
    }
    assert(ids.deep_view().take(ids.len() as int) =~= ids.deep_view());
    out
}

/// The test for a delivery whose status `name` names, in whatever case it
/// is written.
pub open spec fn status_named(name: Seq<char>) -> spec_fn(DeliveryView) -> bool {
    |d: DeliveryView| same_ignoring_case(name, status_name_spec(d.status))
}

/// The deliveries of `deliveries` whose status `query` names, in their
/// order; all of them where there is no query.
pub open spec fn with_status(deliveries: Seq<DeliveryView>, query: Option<Seq<char>>) -> Seq<
    DeliveryView,
> {
    match query {
        Some(name) => deliveries.filter(status_named(name)),
        None => deliveries,
    }
}

/// Keeps the deliveries whose status `query` names.
pub fn filter_by_status(deliveries: Vec<DeliveryRequest>, query: Option<&str>) -> (r: Vec<
    DeliveryRequest,
>)
    ensures
        r.deep_view() == with_status(deliveries.deep_view(), query.deep_view()),
{
    let name = match query {
        Some(name) => name,
        None => {
            return deliveries;
        },
    };
    let ghost all = deliveries.deep_view();
    let ghost wanted = status_named(name@);
    let mut rest = deliveries;
    let mut kept: Vec<DeliveryRequest> = Vec::new();
    assert(rest.deep_view().filter(wanted) + kept.deep_view().reverse() =~= all.filter(wanted));
    // the deliveries are taken from the end, so `kept` holds them in reverse
    while rest.len() > 0
        invariant
            wanted == status_named(name@),
            all.filter(wanted) == rest.deep_view().filter(wanted) + kept.deep_view().reverse(),
        decreases rest.len(),
    {
        let ghost before_rest = rest.deep_view();
        let ghost before_kept = kept.deep_view();
        let d = rest.pop().unwrap();
        proof {
            assert(rest.deep_view() =~= before_rest.drop_last());
            assert(before_rest.last() == d@);
            assert(before_rest =~= rest.deep_view().push(d@));
            rest.deep_view().lemma_filter_push(d@, wanted);
        }
        if status_matches(d.status, name) {
            kept.push(d);
            proof {
                assert(kept.deep_view() =~= before_kept.push(d@));
                assert(kept.deep_view().reverse() =~= seq![d@] + before_kept.reverse());
                assert(rest.deep_view().filter(wanted).push(d@) + before_kept.reverse()
                    =~= rest.deep_view().filter(wanted) + kept.deep_view().reverse());
            }
        }
    }
    proof {
        reveal(Seq::filter);
        assert(rest.deep_view().filter(wanted) =~= Seq::<DeliveryView>::empty());
    }
    let mut out: Vec<DeliveryRequest> = Vec::new();
    let ghost reversed = kept.deep_view();
    assert(out.deep_view() =~= Seq::<DeliveryView>::empty());
    while kept.len() > 0
        invariant
            kept.len() <= reversed.len(),
            kept.deep_view() == reversed.take(kept.len() as int),
            out.deep_view() == reversed.skip(kept.len() as int).reverse(),
        decreases kept.len(),
    {
        let ghost before_kept = kept.deep_view();
        let ghost before_out = out.deep_view();
        let d = kept.pop().unwrap();
        proof {
            assert(kept.deep_view() =~= before_kept.drop_last());
            assert(before_kept.last() == d@);
        }
        out.push(d);
        proof {
            assert(out.deep_view() =~= before_out.push(d@));
            assert(kept.deep_view() =~= reversed.take(kept.len() as int));
            assert(out.deep_view() =~= reversed.skip(kept.len() as int).reverse());
        }
    }
    proof {
        assert(reversed.skip(0) =~= reversed);
        assert(all.filter(wanted) =~= reversed.reverse());
    }
    out
}

} // verus!
