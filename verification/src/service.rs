//! The operations of the marketplace as decisions: from the delivery as the
//! log gives it, the request and the time, to the delivery as it is to be
//! published, the status update that announces the change, and the profile
//! of the courier who is paid.

use vstd::prelude::*;
use crate::catalog::{
    filter_by_status, latest_profile, profile_spec, reconstruct_all, reconstruct_all_spec,
    with_status,
};
use crate::events::{EventView, LogEvent};
use crate::machine::{
    accept_outcome, accepted_courier_spec, bare_update, bid_id, bid_id_spec, bid_made,
    can_create_at, cancel_outcome, complete_outcome, confirmed, create, created, delivery_id,
    delivery_id_spec, expire_outcome, new_bid, update_outcome, with_named_status, DeliveryPatch,
    NewDelivery, NewDeliveryView, PatchView, ValidationError, OPEN_FOR_SECONDS,
};
use crate::model::{
    BidView, DeliveryBid, DeliveryRequest, DeliveryView, ProfileView, StatusUpdate, UpdateView,
    UserProfile,
};
use crate::reconstruct::{reconstruct, reconstruct_spec};
use crate::reputation::{
    profile_after_cancellation, profile_after_confirmation, profile_with_details,
};
use crate::status::DeliveryStatus;

verus! {

/// Why an operation was refused.
#[derive(Clone, Copy, Debug, PartialEq, Eq, Structural)]
pub enum ServiceError {
    /// The log holds no delivery of that identifier.
    NotFound,
    /// The delivery does not allow the operation; it is unchanged.
    Invalid(ValidationError),
}

/// A delivery after a change of status, with the update that announces it.
#[derive(Clone, Debug)]
pub struct Transition {
    pub delivery: DeliveryRequest,
    pub update: StatusUpdate,
}

/// The mathematical view of a [`Transition`].
pub struct TransitionView {
    pub delivery: DeliveryView,
    pub update: UpdateView,
}

impl View for Transition {
    type V = TransitionView;

    open spec fn view(&self) -> TransitionView {
        TransitionView { delivery: self.delivery@, update: self.update@ }
    }
}

/// What became of the payment for a delivery.
#[derive(Clone, Debug)]
pub enum Settlement {
    /// No bid was accepted, or the bid is not among the bids: nobody is paid.
    NoCourier,
    /// The profile of the courier with the payment credited to it.
    Credited(UserProfile),
    /// The counters of the courier's profile have no room for the payment.
    CounterFull,
}

/// The mathematical view of a [`Settlement`].
pub enum SettlementView {
    NoCourier,
    Credited(ProfileView),
    CounterFull,
}

impl View for Settlement {
    type V = SettlementView;

    open spec fn view(&self) -> SettlementView {
        match *self {
            Settlement::NoCourier => SettlementView::NoCourier,
            Settlement::Credited(p) => SettlementView::Credited(p@),
            Settlement::CounterFull => SettlementView::CounterFull,
        }
    }
}

/// The outcome of an operation that gives a transition, as mathematics.
pub open spec fn transition_view(r: Result<Transition, ServiceError>) -> Result<
    TransitionView,
    ServiceError,
> {
    match r {
        Ok(t) => Ok(t@),
        Err(e) => Err(e),
    }
}

/// The outcome of an operation that gives a delivery, as mathematics.
pub open spec fn delivery_view(r: Result<DeliveryRequest, ServiceError>) -> Result<
    DeliveryView,
    ServiceError,
> {
    match r {
        Ok(d) => Ok(d@),
        Err(e) => Err(e),
    }
}

/// The outcome of an operation that gives a bid, as mathematics.
pub open spec fn bid_view(r: Result<DeliveryBid, ServiceError>) -> Result<BidView, ServiceError> {
    match r {
        Ok(b) => Ok(b@),
        Err(e) => Err(e),
    }
}

/// The delivery `id`, or the report that the log holds none.
pub open spec fn get_delivery_spec(events: Seq<EventView>, id: Seq<char>) -> Result<
    DeliveryView,
    ServiceError,
> {
    match reconstruct_spec(events, id) {
        Some(d) => Ok(d),
        None => Err(ServiceError::NotFound),
    }
}

/// The new delivery, where its time of expiry can be told.
pub open spec fn create_delivery_spec(
    req: NewDeliveryView,
    millis: i64,
    now: i64,
    measured: u64,
) -> Option<DeliveryView> {
    if now + OPEN_FOR_SECONDS <= i64::MAX {
        Some(created(req, delivery_id_spec(millis), now, measured))
    } else {
        None
    }
}

/// The bid of `courier` on a delivery that the log holds.
pub open spec fn place_bid_spec(
    found: Option<DeliveryView>,
    courier: ProfileView,
    amount: u64,
    estimated_time: Seq<char>,
    message: Option<Seq<char>>,
    millis: i64,
    now: i64,
) -> Result<BidView, ServiceError> {
    if found is None {
        Err(ServiceError::NotFound)
    } else if amount == 0 {
        Err(ServiceError::Invalid(ValidationError::InvalidBidAmount))
    } else {
        Ok(bid_made(courier, bid_id_spec(millis), amount, estimated_time, message, now))
    }
}

/// The delivery with the bid at `index` accepted, and the update that
/// carries the accepted bid.
pub open spec fn accept_bid_spec(found: Option<DeliveryView>, index: int, now: i64) -> Result<
    TransitionView,
    ServiceError,
> {
    match found {
        None => Err(ServiceError::NotFound),
        Some(d) => match accept_outcome(d, index) {
            Err(e) => Err(ServiceError::Invalid(e)),
            Ok(after) => Ok(
                TransitionView {
                    delivery: after,
                    update: UpdateView {
                        accepted_bid: after.accepted_bid,
                        ..bare_update(d.id, DeliveryStatus::Accepted, now)
                    },
                },
            ),
        },
    }
}

/// The delivery with the status that `name` asks for, and the update that
/// carries the status it then has.
pub open spec fn update_status_spec(found: Option<DeliveryView>, name: Seq<char>, now: i64) -> Result<
    TransitionView,
    ServiceError,
> {
    match found {
        None => Err(ServiceError::NotFound),
        Some(d) => Ok(
            TransitionView {
                delivery: with_named_status(d, name),
                update: bare_update(d.id, with_named_status(d, name).status, now),
            },
        ),
    }
}

/// The confirmed delivery, and the update that carries rating and feedback.
pub open spec fn confirm_spec(
    found: Option<DeliveryView>,
    rating: Option<u32>,
    feedback: Option<Seq<char>>,
    now: i64,
) -> Result<TransitionView, ServiceError> {
    match found {
        None => Err(ServiceError::NotFound),
        Some(d) => Ok(
            TransitionView {
                delivery: confirmed(d, rating, feedback),
                update: UpdateView {
                    sender_rating: rating,
                    sender_feedback: feedback,
                    ..bare_update(d.id, DeliveryStatus::Confirmed, now)
                },
            },
        ),
    }
}

/// The completed delivery, and the update that carries the proof and the
/// time of completion.
pub open spec fn complete_spec(
    found: Option<DeliveryView>,
    images: Seq<Seq<char>>,
    signature_name: Option<Seq<char>>,
    comments: Option<Seq<char>>,
    now: i64,
) -> Result<TransitionView, ServiceError> {
    match found {
        None => Err(ServiceError::NotFound),
        Some(d) => match complete_outcome(d, images, signature_name, comments, now) {
            Err(e) => Err(ServiceError::Invalid(e)),
            Ok(after) => Ok(
                TransitionView {
                    delivery: after,
                    update: UpdateView {
                        proof_of_delivery: after.proof_of_delivery,
                        completed_at: Some(now),
                        ..bare_update(d.id, DeliveryStatus::Completed, now)
                    },
                },
            ),
        },
    }
}

/// An outcome of the state machine as the outcome of an operation on a
/// delivery that the log may not hold.
pub open spec fn on_found(
    found: Option<DeliveryView>,
    outcome: spec_fn(DeliveryView) -> Result<DeliveryView, ValidationError>,
) -> Result<DeliveryView, ServiceError> {
    match found {
        None => Err(ServiceError::NotFound),
        Some(d) => match outcome(d) {
            Ok(after) => Ok(after),
            Err(e) => Err(ServiceError::Invalid(e)),
        },
    }
}

/// The edited delivery.
pub open spec fn update_delivery_spec(found: Option<DeliveryView>, patch: PatchView, measured: u64) -> Result<
    DeliveryView,
    ServiceError,
> {
    on_found(found, |d: DeliveryView| update_outcome(d, patch, measured))
}

/// The withdrawn delivery.
pub open spec fn delete_delivery_spec(found: Option<DeliveryView>) -> Result<
    DeliveryView,
    ServiceError,
> {
    on_found(found, |d: DeliveryView| expire_outcome(d))
}

/// The cancelled delivery.
pub open spec fn cancel_delivery_spec(found: Option<DeliveryView>) -> Result<
    DeliveryView,
    ServiceError,
> {
    on_found(found, |d: DeliveryView| cancel_outcome(d))
}

/// The payment for a confirmed delivery: the accepted courier's profile, as
/// `profiles` give it, with the delivery credited by the confirmation rule.
pub open spec fn confirmation_settlement(
    d: DeliveryView,
    profiles: Seq<EventView>,
    rating: Option<u32>,
) -> SettlementView {
    match accepted_courier_spec(d) {
        None => SettlementView::NoCourier,
        Some(courier) => {
            let p = profile_spec(profiles, courier);
            if p.completed_deliveries < u32::MAX && p.total_earnings + d.offer_amount <= u64::MAX {
                SettlementView::Credited(profile_after_confirmation(p, d.offer_amount, rating))
            } else {
                SettlementView::CounterFull
            }
        },
    }
}

/// The payment for a cancelled delivery: the accepted courier's profile, as
/// `profiles` give it, with the offer added to the earnings.
pub open spec fn cancellation_settlement(d: DeliveryView, profiles: Seq<EventView>) -> SettlementView {
    match accepted_courier_spec(d) {
        None => SettlementView::NoCourier,
        Some(courier) => {
            let p = profile_spec(profiles, courier);
            if p.total_earnings + d.offer_amount <= u64::MAX {
                SettlementView::Credited(profile_after_cancellation(p, d.offer_amount))
            } else {
                SettlementView::CounterFull
            }
        },
    }
}

/// The delivery `id` as the log gives it.
pub fn get_delivery(events: &Vec<LogEvent>, id: &str) -> (r: Result<DeliveryRequest, ServiceError>)
    ensures
        delivery_view(r) == get_delivery_spec(events.deep_view(), id@),
{
    match reconstruct(events, id) {
        Some(d) => Ok(d),
        None => Err(ServiceError::NotFound),
    }
}

/// The deliveries that the log holds, all of them or those of one status.
pub fn get_deliveries(events: &Vec<LogEvent>, query: Option<&str>) -> (r: Vec<DeliveryRequest>)
    ensures
        r.deep_view() == with_status(reconstruct_all_spec(events.deep_view()), query.deep_view()),
{
    filter_by_status(reconstruct_all(events), query)
}

/// Makes a delivery at the time `now`, `millis` in milliseconds.
pub fn create_delivery_at(req: NewDelivery, millis: i64, now: i64, measured_meters: u64) -> (r:
    Option<DeliveryRequest>)
    ensures
        r.deep_view() == create_delivery_spec(req@, millis, now, measured_meters),
{
    if can_create_at(now) {
        Some(create(req, delivery_id(millis), now, measured_meters))
    } else {
        None
    }
}

/// Makes the bid of `courier` on the delivery `found` at the time `now`,
/// `millis` in milliseconds.
pub fn place_bid_at(
    found: Option<&DeliveryRequest>,
    courier: &UserProfile,
    amount: u64,
    estimated_time: String,
    message: Option<String>,
    millis: i64,
    now: i64,
) -> (r: Result<DeliveryBid, ServiceError>)
    ensures
        bid_view(r) == place_bid_spec(
            found.deep_view(),
            courier@,
            amount,
            estimated_time@,
            message.deep_view(),
            millis,
            now,
        ),
{
    if found.is_none() {
        return Err(ServiceError::NotFound);
    }
    if amount == 0 {
        return Err(ServiceError::Invalid(ValidationError::InvalidBidAmount));
    }
    Ok(new_bid(courier, bid_id(millis), amount, estimated_time, message, now))
}

/// Accepts the bid at `index` on the delivery `found` at the time `now`.
pub fn accept_bid_at(found: Option<DeliveryRequest>, index: usize, now: i64) -> (r: Result<
    Transition,
    ServiceError,
>)
    ensures
        transition_view(r) == accept_bid_spec(found.deep_view(), index as int, now),
{
    match found {
        None => Err(ServiceError::NotFound),
        Some(mut delivery) => match delivery.accept_bid(index, now) {
            Ok(update) => Ok(Transition { delivery, update }),
            Err(e) => Err(ServiceError::Invalid(e)),
        },
    }
}

/// Sets the status that `name` asks for on the delivery `found` at the
/// time `now`.
pub fn update_delivery_status_at(found: Option<DeliveryRequest>, name: &str, now: i64) -> (r: Result<
    Transition,
    ServiceError,
>)
    ensures
        transition_view(r) == update_status_spec(found.deep_view(), name@, now),
{
    match found {
        None => Err(ServiceError::NotFound),
        Some(mut delivery) => {
            let update = delivery.force_status(name, now);
            Ok(Transition { delivery, update })
        },
    }
}

/// Confirms the delivery `found` at the time `now`.
pub fn confirm_delivery_at(
    found: Option<DeliveryRequest>,
    rating: Option<u32>,
    feedback: Option<String>,
    now: i64,
) -> (r: Result<Transition, ServiceError>)
    ensures
        transition_view(r) == confirm_spec(found.deep_view(), rating, feedback.deep_view(), now),
{
    match found {
        None => Err(ServiceError::NotFound),
        Some(mut delivery) => {
            let update = delivery.confirm(rating, feedback, now);
            Ok(Transition { delivery, update })
        },
    }
}

/// Completes the delivery `found` at the time `now`.
pub fn complete_delivery_at(
    found: Option<DeliveryRequest>,
    images: Vec<String>,
    signature_name: Option<String>,
    comments: Option<String>,
    now: i64,
) -> (r: Result<Transition, ServiceError>)
    ensures
        transition_view(r) == complete_spec(
            found.deep_view(),
            images.deep_view(),
            signature_name.deep_view(),
            comments.deep_view(),
            now,
        ),
{
    match found {
        None => Err(ServiceError::NotFound),
        Some(mut delivery) => match delivery.complete(images, signature_name, comments, now) {
            Ok(update) => Ok(Transition { delivery, update }),
            Err(e) => Err(ServiceError::Invalid(e)),
        },
    }
}

/// Edits the delivery `found`.
pub fn update_delivery(found: Option<DeliveryRequest>, patch: DeliveryPatch, measured_meters: u64) -> (r:
    Result<DeliveryRequest, ServiceError>)
    ensures
        delivery_view(r) == update_delivery_spec(found.deep_view(), patch@, measured_meters),
{
    match found {
        None => Err(ServiceError::NotFound),
        Some(mut delivery) => match delivery.update(patch, measured_meters) {
            Ok(_) => Ok(delivery),
            Err(e) => Err(ServiceError::Invalid(e)),
        },
    }
}

/// Withdraws the delivery `found`.
pub fn delete_delivery(found: Option<DeliveryRequest>) -> (r: Result<DeliveryRequest, ServiceError>)
    ensures
        delivery_view(r) == delete_delivery_spec(found.deep_view()),
{
    match found {
        None => Err(ServiceError::NotFound),
        Some(mut delivery) => match delivery.expire() {
            Ok(_) => Ok(delivery),
            Err(e) => Err(ServiceError::Invalid(e)),
        },
    }
}

/// Cancels the delivery `found`.
pub fn cancel_delivery(found: Option<DeliveryRequest>) -> (r: Result<DeliveryRequest, ServiceError>)
    ensures
        delivery_view(r) == cancel_delivery_spec(found.deep_view()),
{
    match found {
        None => Err(ServiceError::NotFound),
        Some(mut delivery) => match delivery.cancel() {
            Ok(_) => Ok(delivery),
            Err(e) => Err(ServiceError::Invalid(e)),
        },
    }
}

/// Pays the courier of a confirmed delivery: the profile to publish.
pub fn settle_confirmation(
    delivery: &DeliveryRequest,
    profiles: &Vec<LogEvent>,
    rating: Option<u32>,
) -> (r: Settlement)
    ensures
        r@ == confirmation_settlement(delivery@, profiles.deep_view(), rating),
{
    match delivery.accepted_courier() {
        None => Settlement::NoCourier,
        Some(courier) => {
            let mut profile = latest_profile(profiles, courier.as_str());
            if profile.can_credit_confirmation(delivery.offer_amount) {
                profile.credit_confirmation(delivery.offer_amount, rating);
                Settlement::Credited(profile)
            } else {
                Settlement::CounterFull
            }
        },
    }
}

/// Pays the courier of a cancelled delivery: the profile to publish.
pub fn settle_cancellation(delivery: &DeliveryRequest, profiles: &Vec<LogEvent>) -> (r: Settlement)
    ensures
        r@ == cancellation_settlement(delivery@, profiles.deep_view()),
{
    match delivery.accepted_courier() {
        None => Settlement::NoCourier,
        Some(courier) => {
            let mut profile = latest_profile(profiles, courier.as_str());
            if profile.can_credit_cancellation(delivery.offer_amount) {
                profile.credit_cancellation(delivery.offer_amount);
                Settlement::Credited(profile)
            } else {
                Settlement::CounterFull
            }
        },
    }
}

/// The profile of the user `npub`.
pub fn get_user(profiles: &Vec<LogEvent>, npub: &str) -> (r: UserProfile)
    ensures
        r@ == profile_spec(profiles.deep_view(), npub@),
{
    latest_profile(profiles, npub)
}

/// The profile of the user `npub` with a new name and payment address.
pub fn update_user(
    profiles: &Vec<LogEvent>,
    npub: &str,
    display_name: &Option<String>,
    lightning_address: &Option<String>,
) -> (r: UserProfile)
    ensures
        r@ == profile_with_details(
            profile_spec(profiles.deep_view(), npub@),
            display_name.deep_view(),
            lightning_address.deep_view(),
        ),
{
    let mut profile = latest_profile(profiles, npub);
    profile.update_details(display_name, lightning_address);
    profile
}

} // verus!
