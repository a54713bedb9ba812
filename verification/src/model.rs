//! The records of the marketplace and their mathematical views.
//!
//! Quantities that are fractional in everyday use are kept as scaled
//! integers: coordinates in millionths of a degree, reputation and ratings in
//! thousandths of a star, weights in thousandths of the unit of weight, and
//! distances in whole meters.

use vstd::prelude::*;
use crate::status::DeliveryStatus;
use crate::text::{copy_opt_text, copy_texts};

verus! {

/// The highest reputation and the highest rating: five stars, in thousandths.
pub const MAX_REPUTATION: u32 = 5000;

/// The reputation of an identity that has no profile yet: four and a half stars.
pub const DEFAULT_REPUTATION: u32 = 4500;

/// A point on the globe, in millionths of a degree.
#[derive(Clone, Copy, Debug, PartialEq, Eq, Structural)]
pub struct GeoPoint {
    pub lat: i32,
    pub lng: i32,
}

/// One end of a delivery.
#[derive(Clone, Debug)]
pub struct Location {
    pub address: String,
    pub coordinates: Option<GeoPoint>,
    pub instructions: Option<String>,
}

/// The mathematical view of a [`Location`].
pub struct LocationView {
    pub address: Seq<char>,
    pub coordinates: Option<GeoPoint>,
    pub instructions: Option<Seq<char>>,
}

impl View for Location {
    type V = LocationView;

    open spec fn view(&self) -> LocationView {
        LocationView {
            address: self.address@,
            coordinates: self.coordinates,
            instructions: self.instructions.deep_view(),
        }
    }
}

impl DeepView for Location {
    type V = LocationView;

    open spec fn deep_view(&self) -> LocationView {
        self@
    }
}

impl Location {
    /// A copy with the same contents.
    pub fn duplicate(&self) -> (r: Location)
        ensures
            r@ == self@,
    {
        Location {
            address: self.address.clone(),
            coordinates: self.coordinates,
            instructions: copy_opt_text(&self.instructions),
        }
    }
}

/// One package of a delivery.
#[derive(Clone, Debug)]
pub struct PackageInfo {
    pub size: String,
    pub weight: Option<u32>,
    pub description: String,
    pub fragile: bool,
    pub requires_signature: bool,
}

/// The mathematical view of a [`PackageInfo`].
pub struct PackageView {
    pub size: Seq<char>,
    pub weight: Option<u32>,
    pub description: Seq<char>,
    pub fragile: bool,
    pub requires_signature: bool,
}

impl View for PackageInfo {
    type V = PackageView;

    open spec fn view(&self) -> PackageView {
        PackageView {
            size: self.size@,
            weight: self.weight,
            description: self.description@,
            fragile: self.fragile,
            requires_signature: self.requires_signature,
        }
    }
}

impl DeepView for PackageInfo {
    type V = PackageView;

    open spec fn deep_view(&self) -> PackageView {
        self@
    }
}

impl PackageInfo {
    /// A copy with the same contents.
    pub fn duplicate(&self) -> (r: PackageInfo)
        ensures
            r@ == self@,
    {
        PackageInfo {
            size: self.size.clone(),
            weight: self.weight,
            description: self.description.clone(),
            fragile: self.fragile,
            requires_signature: self.requires_signature,
        }
    }
}

/// A courier's offer to carry a delivery. The reputation and the count of
/// completed deliveries are those of the courier when the bid was made.
#[derive(Clone, Debug)]
pub struct DeliveryBid {
    pub id: String,
    pub courier: String,
    pub amount: u64,
    pub estimated_time: String,
    pub reputation: u32,
    pub completed_deliveries: u32,
    pub message: Option<String>,
    pub created_at: i64,
}

/// The mathematical view of a [`DeliveryBid`].
pub struct BidView {
    pub id: Seq<char>,
    pub courier: Seq<char>,
    pub amount: u64,
    pub estimated_time: Seq<char>,
    pub reputation: u32,
    pub completed_deliveries: u32,
    pub message: Option<Seq<char>>,
    pub created_at: i64,
}

impl View for DeliveryBid {
    type V = BidView;

    open spec fn view(&self) -> BidView {
        BidView {
            id: self.id@,
            courier: self.courier@,
            amount: self.amount,
            estimated_time: self.estimated_time@,
            reputation: self.reputation,
            completed_deliveries: self.completed_deliveries,
            message: self.message.deep_view(),
            created_at: self.created_at,
        }
    }
}

impl DeepView for DeliveryBid {
    type V = BidView;

    open spec fn deep_view(&self) -> BidView {
        self@
    }
}

impl DeliveryBid {
    /// A copy with the same contents.
    pub fn duplicate(&self) -> (r: DeliveryBid)
        ensures
            r@ == self@,
    {
        DeliveryBid {
            id: self.id.clone(),
            courier: self.courier.clone(),
            amount: self.amount,
            estimated_time: self.estimated_time.clone(),
            reputation: self.reputation,
            completed_deliveries: self.completed_deliveries,
            message: copy_opt_text(&self.message),
            created_at: self.created_at,
        }
    }
}

/// What the courier hands in on arrival.
#[derive(Clone, Debug)]
pub struct ProofOfDelivery {
    pub images: Vec<String>,
    pub signature_name: Option<String>,
    pub timestamp: i64,
    pub location: Option<GeoPoint>,
    pub comments: Option<String>,
}

/// The mathematical view of a [`ProofOfDelivery`].
pub struct ProofView {
    pub images: Seq<Seq<char>>,
    pub signature_name: Option<Seq<char>>,
    pub timestamp: i64,
    pub location: Option<GeoPoint>,
    pub comments: Option<Seq<char>>,
}

impl View for ProofOfDelivery {
    type V = ProofView;

    open spec fn view(&self) -> ProofView {
        ProofView {
            images: self.images.deep_view(),
            signature_name: self.signature_name.deep_view(),
            timestamp: self.timestamp,
            location: self.location,
            comments: self.comments.deep_view(),
        }
    }
}

impl DeepView for ProofOfDelivery {
    type V = ProofView;

    open spec fn deep_view(&self) -> ProofView {
        self@
    }
}

impl ProofOfDelivery {
    /// A copy with the same contents.
    pub fn duplicate(&self) -> (r: ProofOfDelivery)
        ensures
            r@ == self@,
    {
        ProofOfDelivery {
            images: copy_texts(&self.images),
            signature_name: copy_opt_text(&self.signature_name),
            timestamp: self.timestamp,
            location: self.location,
            comments: copy_opt_text(&self.comments),
        }
    }
}

/// A copy of an optional proof of delivery with the same contents.
pub fn copy_opt_proof(evidence: &Option<ProofOfDelivery>) -> (r: Option<ProofOfDelivery>)
    ensures
        r.deep_view() == evidence.deep_view(),
{
    match evidence {
        Some(p) => Some(p.duplicate()),
        None => None,
    }
}

/// A copy of a list of packages with the same contents in the same order.
pub fn copy_packages(packages: &Vec<PackageInfo>) -> (r: Vec<PackageInfo>)
    ensures
        r.deep_view() == packages.deep_view(),
{
    let mut out: Vec<PackageInfo> = Vec::new();
    let mut i: usize = 0;
    while i < packages.len()
        invariant
            i <= packages.len(),
            out.len() == i,
            forall|j: int| 0 <= j < i ==> out@[j]@ == packages@[j]@,
        decreases packages.len() - i,
    {
        out.push(packages[i].duplicate());
        i += 1;
    }
    assert(out.deep_view() =~= packages.deep_view());
    out
}

/// A copy of a list of bids with the same contents in the same order.
pub fn copy_bids(bids: &Vec<DeliveryBid>) -> (r: Vec<DeliveryBid>)
    ensures
        r.deep_view() == bids.deep_view(),
{
    let mut out: Vec<DeliveryBid> = Vec::new();
    let mut i: usize = 0;
    while i < bids.len()
        invariant
            i <= bids.len(),
            out.len() == i,
            forall|j: int| 0 <= j < i ==> out@[j]@ == bids@[j]@,
        decreases bids.len() - i,
    {
        out.push(bids[i].duplicate());
        i += 1;
    }
    assert(out.deep_view() =~= bids.deep_view());
    out
}


/// A delivery with everything known of it: the request as the sender made it,
/// the bids placed on it, and what its transitions have recorded.
#[derive(Clone, Debug)]
pub struct DeliveryRequest {
    pub id: String,
    pub sender: String,
    pub pickup: Location,
    pub dropoff: Location,
    pub packages: Vec<PackageInfo>,
    pub offer_amount: u64,
    pub insurance_amount: Option<u64>,
    pub time_window: String,
    pub expires_at: Option<i64>,
    pub status: DeliveryStatus,
    pub bids: Vec<DeliveryBid>,
    pub accepted_bid: Option<String>,
    pub created_at: i64,
    pub distance_meters: Option<u64>,
    pub proof_of_delivery: Option<ProofOfDelivery>,
    pub sender_feedback: Option<String>,
    pub sender_rating: Option<u32>,
    pub completed_at: Option<i64>,
}

/// The mathematical view of a [`DeliveryRequest`].
pub struct DeliveryView {
    pub id: Seq<char>,
    pub sender: Seq<char>,
    pub pickup: LocationView,
    pub dropoff: LocationView,
    pub packages: Seq<PackageView>,
    pub offer_amount: u64,
    pub insurance_amount: Option<u64>,
    pub time_window: Seq<char>,
    pub expires_at: Option<i64>,
    pub status: DeliveryStatus,
    pub bids: Seq<BidView>,
    pub accepted_bid: Option<Seq<char>>,
    pub created_at: i64,
    pub distance_meters: Option<u64>,
    pub proof_of_delivery: Option<ProofView>,
    pub sender_feedback: Option<Seq<char>>,
    pub sender_rating: Option<u32>,
    pub completed_at: Option<i64>,
}

impl View for DeliveryRequest {
    type V = DeliveryView;

    open spec fn view(&self) -> DeliveryView {
        DeliveryView {
            id: self.id@,
            sender: self.sender@,
            pickup: self.pickup@,
            dropoff: self.dropoff@,
            packages: self.packages.deep_view(),
            offer_amount: self.offer_amount,
            insurance_amount: self.insurance_amount,
            time_window: self.time_window@,
            expires_at: self.expires_at,
            status: self.status,
            bids: self.bids.deep_view(),
            accepted_bid: self.accepted_bid.deep_view(),
            created_at: self.created_at,
            distance_meters: self.distance_meters,
            proof_of_delivery: self.proof_of_delivery.deep_view(),
            sender_feedback: self.sender_feedback.deep_view(),
            sender_rating: self.sender_rating,
            completed_at: self.completed_at,
        }
    }
}

impl DeepView for DeliveryRequest {
    type V = DeliveryView;

    open spec fn deep_view(&self) -> DeliveryView {
        self@
    }
}

impl DeliveryRequest {
    /// A copy with the same contents.
    pub fn duplicate(&self) -> (r: DeliveryRequest)
        ensures
            r@ == self@,
    {
        DeliveryRequest {
            id: self.id.clone(),
            sender: self.sender.clone(),
            pickup: self.pickup.duplicate(),
            dropoff: self.dropoff.duplicate(),
            packages: copy_packages(&self.packages),
            offer_amount: self.offer_amount,
            insurance_amount: self.insurance_amount,
            time_window: self.time_window.clone(),
            expires_at: self.expires_at,
            status: self.status,
            bids: copy_bids(&self.bids),
            accepted_bid: copy_opt_text(&self.accepted_bid),
            created_at: self.created_at,
            distance_meters: self.distance_meters,
            proof_of_delivery: copy_opt_proof(&self.proof_of_delivery),
            sender_feedback: copy_opt_text(&self.sender_feedback),
            sender_rating: self.sender_rating,
            completed_at: self.completed_at,
        }
    }
}

/// The announcement of one status transition. It lives in the log only:
/// the fields after `timestamp` are laid over the delivery where they are
/// present and leave it untouched where they are absent.
#[derive(Clone, Debug)]
pub struct StatusUpdate {
    pub delivery_id: String,
    pub status: DeliveryStatus,
    pub timestamp: i64,
    pub proof_of_delivery: Option<ProofOfDelivery>,
    pub completed_at: Option<i64>,
    pub accepted_bid: Option<String>,
    pub sender_rating: Option<u32>,
    pub sender_feedback: Option<String>,
}

/// The mathematical view of a [`StatusUpdate`].
pub struct UpdateView {
    pub delivery_id: Seq<char>,
    pub status: DeliveryStatus,
    pub timestamp: i64,
    pub proof_of_delivery: Option<ProofView>,
    pub completed_at: Option<i64>,
    pub accepted_bid: Option<Seq<char>>,
    pub sender_rating: Option<u32>,
    pub sender_feedback: Option<Seq<char>>,
}

impl View for StatusUpdate {
    type V = UpdateView;

    open spec fn view(&self) -> UpdateView {
        UpdateView {
            delivery_id: self.delivery_id@,
            status: self.status,
            timestamp: self.timestamp,
            proof_of_delivery: self.proof_of_delivery.deep_view(),
            completed_at: self.completed_at,
            accepted_bid: self.accepted_bid.deep_view(),
            sender_rating: self.sender_rating,
            sender_feedback: self.sender_feedback.deep_view(),
        }
    }
}

impl DeepView for StatusUpdate {
    type V = UpdateView;

    open spec fn deep_view(&self) -> UpdateView {
        self@
    }
}

/// What is known of a sender or courier.
#[derive(Clone, Debug)]
pub struct UserProfile {
    pub npub: String,
    pub display_name: Option<String>,
    pub reputation: u32,
    pub completed_deliveries: u32,
    pub total_earnings: u64,
    pub verified_identity: bool,
    pub lightning_address: Option<String>,
}

/// The mathematical view of a [`UserProfile`].
pub struct ProfileView {
    pub npub: Seq<char>,
    pub display_name: Option<Seq<char>>,
    pub reputation: u32,
    pub completed_deliveries: u32,
    pub total_earnings: u64,
    pub verified_identity: bool,
    pub lightning_address: Option<Seq<char>>,
}

impl View for UserProfile {
    type V = ProfileView;

    open spec fn view(&self) -> ProfileView {
        ProfileView {
            npub: self.npub@,
            display_name: self.display_name.deep_view(),
            reputation: self.reputation,
            completed_deliveries: self.completed_deliveries,
            total_earnings: self.total_earnings,
            verified_identity: self.verified_identity,
            lightning_address: self.lightning_address.deep_view(),
        }
    }
}

impl DeepView for UserProfile {
    type V = ProfileView;

    open spec fn deep_view(&self) -> ProfileView {
        self@
    }
}

/// The profile of an identity of which nothing is known yet.
pub open spec fn fresh_profile(npub: Seq<char>) -> ProfileView {
    ProfileView {
        npub,
        display_name: None,
        reputation: DEFAULT_REPUTATION,
        completed_deliveries: 0,
        total_earnings: 0,
        verified_identity: false,
        lightning_address: None,
    }
}

impl Default for UserProfile {
    fn default() -> (r: UserProfile)
        ensures
            r@ == fresh_profile(Seq::<char>::empty()),
    {
        UserProfile {
            npub: String::new(),
            display_name: None,
            reputation: DEFAULT_REPUTATION,
            completed_deliveries: 0,
            total_earnings: 0,
            verified_identity: false,
            lightning_address: None,
        }
    }
}

impl UserProfile {
    /// The profile that stands for `npub` until one is published.
    pub fn unseen(npub: &str) -> (r: UserProfile)
        ensures
            r@ == fresh_profile(npub@),
    {
        UserProfile {
            npub: npub.to_owned(),
            display_name: None,
            reputation: DEFAULT_REPUTATION,
            completed_deliveries: 0,
            total_earnings: 0,
            verified_identity: false,
            lightning_address: None,
        }
    }

    /// A copy with the same contents.
    pub fn duplicate(&self) -> (r: UserProfile)
        ensures
            r@ == self@,
    {
        UserProfile {
            npub: self.npub.clone(),
            display_name: copy_opt_text(&self.display_name),
            reputation: self.reputation,
            completed_deliveries: self.completed_deliveries,
            total_earnings: self.total_earnings,
            verified_identity: self.verified_identity,
            lightning_address: copy_opt_text(&self.lightning_address),
        }
    }
}

} // verus!
