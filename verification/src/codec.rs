//! The envelope under which each record is published: its event kind and
//! its tags. The tags of a record are what the reconstruction finds it by.

use vstd::prelude::*;
use vstd::string::*;
use crate::events::{has_tag_spec, tag_is, EventView, PayloadView};
use crate::catalog::is_profile_of;
use crate::reconstruct::{is_bid_of, is_root_of, is_update_of};
use crate::model::{BidView, DeliveryBid, DeliveryRequest, DeliveryView, ProfileView, UserProfile};
use crate::status::{
    status_kind, status_kind_spec, status_name, status_name_spec, DeliveryStatus, KIND_BID,
    KIND_DELIVERY, KIND_PROFILE,
};
use crate::text::{decimal, digit_char, push_decimal, push_signed_decimal, signed_decimal};

verus! {

/// Kind and tags of an event that is about to be published.
#[derive(Clone, Debug)]
pub struct EventDraft {
    pub kind: u16,
    pub tags: Vec<Vec<String>>,
}

/// The mathematical view of an [`EventDraft`].
pub struct DraftView {
    pub kind: u16,
    pub tags: Seq<Seq<Seq<char>>>,
}

impl View for EventDraft {
    type V = DraftView;

    open spec fn view(&self) -> DraftView {
        DraftView { kind: self.kind, tags: self.tags.deep_view() }
    }
}

/// The digits behind the decimal point for `f` thousandths, without
/// trailing zeros.
pub open spec fn fraction_digits(f: nat) -> Seq<char> {
    if f % 100 == 0 {
        seq![digit_char(f / 100)]
    } else if f % 10 == 0 {
        seq![digit_char(f / 100), digit_char((f / 10) % 10)]
    } else {
        seq![digit_char(f / 100), digit_char((f / 10) % 10), digit_char(f % 10)]
    }
}

/// A count of thousandths written as a decimal number: `4500` is `4.5`,
/// `5000` is `5`.
pub open spec fn thousandths_text(n: nat) -> Seq<char> {
    if n % 1000 == 0 {
        decimal(n / 1000)
    } else {
        decimal(n / 1000) + seq!['.'] + fraction_digits(n % 1000)
    }
}

/// The tags of the root snapshot of a delivery.
pub open spec fn delivery_tags_spec(d: DeliveryView) -> Seq<Seq<Seq<char>>> {
    seq![
        seq!["d"@, d.id],
        seq!["sender"@, d.sender],
        seq!["status"@, status_name_spec(d.status)],
        seq!["amount"@, decimal(d.offer_amount as nat)],
        seq!["created_at"@, signed_decimal(d.created_at as int)],
    ]
}

/// The tags of a bid on the delivery `delivery_id`.
pub open spec fn bid_tags_spec(delivery_id: Seq<char>, bid: BidView) -> Seq<Seq<Seq<char>>> {
    seq![
        seq!["d"@, bid.id],
        seq!["delivery_id"@, delivery_id],
        seq!["courier"@, bid.courier],
        seq!["amount"@, decimal(bid.amount as nat)],
    ]
}

/// The tags of the announcement that the delivery `delivery_id` has the
/// status `status` since `now`.
pub open spec fn status_tags_spec(delivery_id: Seq<char>, status: DeliveryStatus, now: i64) -> Seq<
    Seq<Seq<char>>,
> {
    seq![
        seq!["delivery_id"@, delivery_id],
        seq!["status"@, status_name_spec(status)],
        seq!["timestamp"@, signed_decimal(now as int)],
    ]
}

/// The tags of a profile.
pub open spec fn profile_tags_spec(p: ProfileView) -> Seq<Seq<Seq<char>>> {
    seq![
        seq!["d"@, p.npub],
        seq!["reputation"@, thousandths_text(p.reputation as nat)],
        seq!["completed_deliveries"@, decimal(p.completed_deliveries as nat)],
    ]
}

fn tag(name: &str, value: String) -> (r: Vec<String>)
    ensures
        r.deep_view() == seq![name@, value@],
{
    let mut t: Vec<String> = Vec::new();
    t.push(name.to_owned());
    t.push(value);
    assert(t.deep_view() =~= seq![name@, value@]);
    t
}

fn decimal_text(n: u64) -> (r: String)
    ensures
        r@ == decimal(n as nat),
{
    let mut s = String::new();
    push_decimal(&mut s, n);
    assert(s@ =~= decimal(n as nat));
    s
}

fn signed_decimal_text(n: i64) -> (r: String)
    ensures
        r@ == signed_decimal(n as int),
{
    let mut s = String::new();
    push_signed_decimal(&mut s, n);
    assert(s@ =~= signed_decimal(n as int));
    s
}

fn push_digit(out: &mut String, d: u64)
    requires
        d < 10,
    ensures
        final(out)@ == old(out)@.push(digit_char(d as nat)),
{
    push_decimal(out, d);
    assert(final(out)@ =~= old(out)@.push(digit_char(d as nat)));
}

/// A count of thousandths written as a decimal number.
pub fn thousandths(n: u32) -> (r: String)
    ensures
        r@ == thousandths_text(n as nat),
{
    let mut s = decimal_text((n / 1000) as u64);
    let f: u64 = (n % 1000) as u64;
    if f != 0 {
        proof {
            reveal_strlit(".");
        }
        let ghost whole = s@;
        s.append(".");
        assert(s@ =~= whole + seq!['.']);
        push_digit(&mut s, f / 100);
        if f % 100 != 0 {
            push_digit(&mut s, (f / 10) % 10);
            if f % 10 != 0 {
                push_digit(&mut s, f % 10);
            }
        }
        assert(s@ =~= thousandths_text(n as nat));
    }
    s
}

/// The tags under which the root snapshot of `d` is published.
pub fn delivery_tags(d: &DeliveryRequest) -> (r: Vec<Vec<String>>)
    ensures
        r.deep_view() == delivery_tags_spec(d@),
        has_tag_spec(r.deep_view(), "d"@, d@.id),
{
    let mut tags: Vec<Vec<String>> = Vec::new();
    tags.push(tag("d", d.id.clone()));
    tags.push(tag("sender", d.sender.clone()));
    tags.push(tag("status", status_name(d.status).to_owned()));
    tags.push(tag("amount", decimal_text(d.offer_amount)));
    tags.push(tag("created_at", signed_decimal_text(d.created_at)));
    assert(tags.deep_view() =~= delivery_tags_spec(d@));
    assert(tag_is(tags.deep_view()[0], "d"@, d@.id));
    tags
}

/// The tags under which `bid` on the delivery `delivery_id` is published.
pub fn bid_tags(delivery_id: &str, bid: &DeliveryBid) -> (r: Vec<Vec<String>>)
    ensures
        r.deep_view() == bid_tags_spec(delivery_id@, bid@),
        has_tag_spec(r.deep_view(), "delivery_id"@, delivery_id@),
{
    let mut tags: Vec<Vec<String>> = Vec::new();
    tags.push(tag("d", bid.id.clone()));
    tags.push(tag("delivery_id", delivery_id.to_owned()));
    tags.push(tag("courier", bid.courier.clone()));
    tags.push(tag("amount", decimal_text(bid.amount)));
    assert(tags.deep_view() =~= bid_tags_spec(delivery_id@, bid@));
    assert(tag_is(tags.deep_view()[1], "delivery_id"@, delivery_id@));
    tags
}

/// The tags under which a status of the delivery `delivery_id` is announced.
pub fn status_tags(delivery_id: &str, status: DeliveryStatus, now: i64) -> (r: Vec<Vec<String>>)
    ensures
        r.deep_view() == status_tags_spec(delivery_id@, status, now),
        has_tag_spec(r.deep_view(), "delivery_id"@, delivery_id@),
{
    let mut tags: Vec<Vec<String>> = Vec::new();
    tags.push(tag("delivery_id", delivery_id.to_owned()));
    tags.push(tag("status", status_name(status).to_owned()));
    tags.push(tag("timestamp", signed_decimal_text(now)));
    assert(tags.deep_view() =~= status_tags_spec(delivery_id@, status, now));
    assert(tag_is(tags.deep_view()[0], "delivery_id"@, delivery_id@));
    tags
}

/// The tags under which `profile` is published.
pub fn profile_tags(profile: &UserProfile) -> (r: Vec<Vec<String>>)
    ensures
        r.deep_view() == profile_tags_spec(profile@),
        has_tag_spec(r.deep_view(), "d"@, profile@.npub),
{
    let mut tags: Vec<Vec<String>> = Vec::new();
    tags.push(tag("d", profile.npub.clone()));
    tags.push(tag("reputation", thousandths(profile.reputation)));
    tags.push(tag("completed_deliveries", decimal_text(profile.completed_deliveries as u64)));
    assert(tags.deep_view() =~= profile_tags_spec(profile@));
    assert(tag_is(tags.deep_view()[0], "d"@, profile@.npub));
    tags
}

/// Kind and tags of the root snapshot of `d`.
pub fn delivery_event(d: &DeliveryRequest) -> (r: EventDraft)
    ensures
        r@ == (DraftView { kind: KIND_DELIVERY, tags: delivery_tags_spec(d@) }),
{
    EventDraft { kind: KIND_DELIVERY, tags: delivery_tags(d) }
}

/// Kind and tags of `bid` on the delivery `delivery_id`.
pub fn bid_event(delivery_id: &str, bid: &DeliveryBid) -> (r: EventDraft)
    ensures
        r@ == (DraftView { kind: KIND_BID, tags: bid_tags_spec(delivery_id@, bid@) }),
{
    EventDraft { kind: KIND_BID, tags: bid_tags(delivery_id, bid) }
}

/// Kind and tags of the announcement of a status; none for a status that
/// is not announced.
pub fn status_event(delivery_id: &str, status: DeliveryStatus, now: i64) -> (r: Option<EventDraft>)
    ensures
        match r {
            Some(draft) => status_kind_spec(status) == Some(draft.kind) && draft@.tags
                == status_tags_spec(delivery_id@, status, now),
            None => status_kind_spec(status) is None,
        },
{
    match status_kind(status) {
        Some(kind) => Some(EventDraft { kind, tags: status_tags(delivery_id, status, now) }),
        None => None,
    }
}

/// Kind and tags of `profile`.
pub fn profile_event(profile: &UserProfile) -> (r: EventDraft)
    ensures
        r@ == (DraftView { kind: KIND_PROFILE, tags: profile_tags_spec(profile@) }),
{
    EventDraft { kind: KIND_PROFILE, tags: profile_tags(profile) }
}

/// What is published is found again: an event that carries a delivery
/// under the kind and the tags made for it is a root snapshot of that
/// delivery.
pub proof fn lemma_snapshot_is_found(e: EventView, d: DeliveryView)
    requires
        e.kind == KIND_DELIVERY,
        e.tags == delivery_tags_spec(d),
        e.payload == PayloadView::Delivery(d),
    ensures
        is_root_of(e, d.id),
{
    assert(tag_is(e.tags[0], "d"@, d.id));
}

/// An event that carries a bid under the kind and the tags made for it is
/// a bid on the delivery it was made for.
pub proof fn lemma_bid_is_found(e: EventView, delivery_id: Seq<char>, b: BidView)
    requires
        e.kind == KIND_BID,
        e.tags == bid_tags_spec(delivery_id, b),
        e.payload == PayloadView::Bid(b),
    ensures
        is_bid_of(e, delivery_id),
{
    assert(tag_is(e.tags[1], "delivery_id"@, delivery_id));
}

/// An event that carries an update under the kind and the tags made for
/// the announcement of a status is a status update of the delivery.
pub proof fn lemma_update_is_found(
    e: EventView,
    delivery_id: Seq<char>,
    status: DeliveryStatus,
    now: i64,
)
    requires
        status_kind_spec(status) == Some(e.kind),
        e.tags == status_tags_spec(delivery_id, status, now),
        e.payload is Update,
    ensures
        is_update_of(e, delivery_id),
{
    assert(tag_is(e.tags[0], "delivery_id"@, delivery_id));
    crate::status::lemma_status_kind_round_trip(status);
}

/// An event that carries a profile under the kind and the tags made for it
/// is a profile of its user.
pub proof fn lemma_profile_is_found(e: EventView, p: ProfileView)
    requires
        e.kind == KIND_PROFILE,
        e.tags == profile_tags_spec(p),
        e.payload == PayloadView::Profile(p),
    ensures
        is_profile_of(e, p.npub),
{
    assert(tag_is(e.tags[0], "d"@, p.npub));
}

} // verus!
