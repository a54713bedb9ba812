//! The operations that need the time of day, each reading the system clock
//! and handing the time to the decision that takes it as an argument.

use vstd::prelude::*;
use crate::machine::NewDelivery;
use crate::model::{DeliveryBid, DeliveryRequest, UserProfile};
use crate::service::{
    accept_bid_at, accept_bid_spec, bid_view, complete_delivery_at, complete_spec,
    confirm_delivery_at, confirm_spec, create_delivery_at, create_delivery_spec, place_bid_at,
    place_bid_spec, transition_view, update_delivery_status_at, update_status_spec, ServiceError,
    Transition,
};

verus! {

/// `chrono::Utc::now().timestamp()`: the whole seconds of Unix time that
/// the system clock shows. Nothing is claimed of the value: the clock may
/// show any time, and need not move forward from one call to the next.
/// The call panics, as `Utc::now` does, where the clock stands before 1970.
#[verifier::external_body]
fn unix_seconds() -> (now: i64) {
    chrono::Utc::now().timestamp()
}

/// `chrono::Utc::now().timestamp_millis()`: the milliseconds of Unix time
/// that the system clock shows. Nothing is claimed of the value.
/// The call panics, as `Utc::now` does, where the clock stands before 1970.
#[verifier::external_body]
fn unix_millis() -> (millis: i64) {
    chrono::Utc::now().timestamp_millis()
}

/// Makes a delivery now. The identifier is made from the milliseconds and
/// the time of creation is the seconds that the clock shows; there is no
/// delivery where the clock shows a time too late for a time of expiry.
pub fn create_delivery(req: NewDelivery, measured_meters: u64) -> (r: Option<DeliveryRequest>)
    ensures
        exists|millis: i64, now: i64|
            r.deep_view() == #[trigger] create_delivery_spec(req@, millis, now, measured_meters),
{
    let millis = unix_millis();
    let now = unix_seconds();
    create_delivery_at(req, millis, now, measured_meters)
}

/// Makes the bid of `courier` on the delivery `found` now.
pub fn place_bid(
    found: Option<&DeliveryRequest>,
    courier: &UserProfile,
    amount: u64,
    estimated_time: String,
    message: Option<String>,
) -> (r: Result<DeliveryBid, ServiceError>)
    ensures
        exists|millis: i64, now: i64|
            bid_view(r) == #[trigger] place_bid_spec(
                found.deep_view(),
                courier@,
                amount,
                estimated_time@,
                message.deep_view(),
                millis,
                now,
            ),
{
    let millis = unix_millis();
    let now = unix_seconds();
    place_bid_at(found, courier, amount, estimated_time, message, millis, now)
}

/// Accepts the bid at `index` on the delivery `found` now.
pub fn accept_bid(found: Option<DeliveryRequest>, index: usize) -> (r: Result<
    Transition,
    ServiceError,
>)
    ensures
        exists|now: i64|
            transition_view(r) == #[trigger] accept_bid_spec(found.deep_view(), index as int, now),
{
    let now = unix_seconds();
    accept_bid_at(found, index, now)
}

/// Sets the status that `name` asks for on the delivery `found` now.
pub fn update_delivery_status(found: Option<DeliveryRequest>, name: &str) -> (r: Result<
    Transition,
    ServiceError,
>)
    ensures
        exists|now: i64|
            transition_view(r) == #[trigger] update_status_spec(found.deep_view(), name@, now),
{
    let now = unix_seconds();
    update_delivery_status_at(found, name, now)
}

/// Confirms the delivery `found` now.
pub fn confirm_delivery(
    found: Option<DeliveryRequest>,
    rating: Option<u32>,
    feedback: Option<String>,
) -> (r: Result<Transition, ServiceError>)
    ensures
        exists|now: i64|
            transition_view(r) == #[trigger] confirm_spec(
                found.deep_view(),
                rating,
                feedback.deep_view(),
                now,
            ),
{
    let now = unix_seconds();
    confirm_delivery_at(found, rating, feedback, now)
}

/// Completes the delivery `found` now.
pub fn complete_delivery(
    found: Option<DeliveryRequest>,
    images: Vec<String>,
    signature_name: Option<String>,
    comments: Option<String>,
) -> (r: Result<Transition, ServiceError>)
    ensures
        exists|now: i64|
            transition_view(r) == #[trigger] complete_spec(
                found.deep_view(),
                images.deep_view(),
                signature_name.deep_view(),
                comments.deep_view(),
                now,
            ),
{
    let now = unix_seconds();
    complete_delivery_at(found, images, signature_name, comments, now)
}

} // verus!
