//! The status of a delivery and the codes and names it travels under.

use vstd::prelude::*;
use crate::text::{eq_ignoring_case, same_ignoring_case};

verus! {

/// Where a delivery stands in its life cycle.
#[derive(Clone, Copy, Debug, PartialEq, Eq, Structural)]
pub enum DeliveryStatus {
    Open,
    Accepted,
    InTransit,
    Completed,
    Confirmed,
    Disputed,
    Expired,
}

/// Event kind of a root snapshot of a delivery.
pub const KIND_DELIVERY: u16 = 35000;

/// Event kind of a bid.
pub const KIND_BID: u16 = 35001;

/// Event kind of a user profile.
pub const KIND_PROFILE: u16 = 35009;

/// The event kind that announces a transition into `status`, if there is one.
pub open spec fn status_kind_spec(status: DeliveryStatus) -> Option<u16> {
    match status {
        DeliveryStatus::Accepted => Some(35002u16),
        DeliveryStatus::Open => Some(35003u16),
        DeliveryStatus::InTransit => Some(35004u16),
        DeliveryStatus::Completed => Some(35005u16),
        DeliveryStatus::Confirmed => Some(35006u16),
        DeliveryStatus::Disputed => None,
        DeliveryStatus::Expired => None,
    }
}

/// The status that an event of kind `kind` announces, if it is a status kind.
pub open spec fn kind_status_spec(kind: u16) -> Option<DeliveryStatus> {
    if kind == 35002 {
        Some(DeliveryStatus::Accepted)
    } else if kind == 35003 {
        Some(DeliveryStatus::Open)
    } else if kind == 35004 {
        Some(DeliveryStatus::InTransit)
    } else if kind == 35005 {
        Some(DeliveryStatus::Completed)
    } else if kind == 35006 {
        Some(DeliveryStatus::Confirmed)
    } else {
        None
    }
}

/// The event kind under which a transition into `status` is published.
pub fn status_kind(status: DeliveryStatus) -> (kind: Option<u16>)
    ensures
        kind == status_kind_spec(status),
{
    match status {
        DeliveryStatus::Accepted => Some(35002),
        DeliveryStatus::Open => Some(35003),
        DeliveryStatus::InTransit => Some(35004),
        DeliveryStatus::Completed => Some(35005),
        DeliveryStatus::Confirmed => Some(35006),
        DeliveryStatus::Disputed => None,
        DeliveryStatus::Expired => None,
    }
}

/// The status announced by an event of kind `kind`.
pub fn kind_status(kind: u16) -> (status: Option<DeliveryStatus>)
    ensures
        status == kind_status_spec(kind),
{
    if kind == 35002 {
        Some(DeliveryStatus::Accepted)
    } else if kind == 35003 {
        Some(DeliveryStatus::Open)
    } else if kind == 35004 {
        Some(DeliveryStatus::InTransit)
    } else if kind == 35005 {
        Some(DeliveryStatus::Completed)
    } else if kind == 35006 {
        Some(DeliveryStatus::Confirmed)
    } else {
        None
    }
}

/// A status kind read back gives the status it was written for, and a
/// status kind is never the kind of a snapshot, a bid or a profile.
pub proof fn lemma_status_kind_round_trip(status: DeliveryStatus)
    ensures
        status_kind_spec(status) matches Some(kind) ==> {
            &&& kind_status_spec(kind) == Some(status)
            &&& kind != KIND_DELIVERY
            &&& kind != KIND_BID
            &&& kind != KIND_PROFILE
        },
{
}

/// The name of a status as it stands in tags and in queries.
pub open spec fn status_name_spec(status: DeliveryStatus) -> Seq<char> {
    match status {
        DeliveryStatus::Open => "open"@,
        DeliveryStatus::Accepted => "accepted"@,
        DeliveryStatus::InTransit => "intransit"@,
        DeliveryStatus::Completed => "completed"@,
        DeliveryStatus::Confirmed => "confirmed"@,
        DeliveryStatus::Disputed => "disputed"@,
        DeliveryStatus::Expired => "expired"@,
    }
}

/// The name of a status as it stands in tags and in queries.
pub fn status_name(status: DeliveryStatus) -> (name: &'static str)
    ensures
        name@ == status_name_spec(status),
{
    match status {
        DeliveryStatus::Open => "open",
        DeliveryStatus::Accepted => "accepted",
        DeliveryStatus::InTransit => "intransit",
        DeliveryStatus::Completed => "completed",
        DeliveryStatus::Confirmed => "confirmed",
        DeliveryStatus::Disputed => "disputed",
        DeliveryStatus::Expired => "expired",
    }
}

/// Whether `query` names `status`, in whatever case it is written.
pub fn status_matches(status: DeliveryStatus, query: &str) -> (r: bool)
    ensures
        r == same_ignoring_case(query@, status_name_spec(status)),
{
    eq_ignoring_case(query, status_name(status))
}

/// The status that a request names, in whatever case it is written:
/// `accepted`, `in_transit` or `intransit`, `completed`, `confirmed`.
/// No other status can be asked for by name.
pub open spec fn parse_status_spec(name: Seq<char>) -> Option<DeliveryStatus> {
    if same_ignoring_case(name, "accepted"@) {
        Some(DeliveryStatus::Accepted)
    } else if same_ignoring_case(name, "in_transit"@) || same_ignoring_case(name, "intransit"@) {
        Some(DeliveryStatus::InTransit)
    } else if same_ignoring_case(name, "completed"@) {
        Some(DeliveryStatus::Completed)
    } else if same_ignoring_case(name, "confirmed"@) {
        Some(DeliveryStatus::Confirmed)
    } else {
        None
    }
}

/// The status that a request names.
pub fn parse_status(name: &str) -> (status: Option<DeliveryStatus>)
    ensures
        status == parse_status_spec(name@),
{
    if eq_ignoring_case(name, "accepted") {
        Some(DeliveryStatus::Accepted)
    } else if eq_ignoring_case(name, "in_transit") || eq_ignoring_case(name, "intransit") {
        Some(DeliveryStatus::InTransit)
    } else if eq_ignoring_case(name, "completed") {
        Some(DeliveryStatus::Completed)
    } else if eq_ignoring_case(name, "confirmed") {
        Some(DeliveryStatus::Confirmed)
    } else {
        None
    }
}

} // verus!
