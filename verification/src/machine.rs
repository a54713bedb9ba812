//! The status state machine of a delivery: which transitions are allowed
//! from which status, what each one changes, and the status update that
//! announces it.

use vstd::prelude::*;
use crate::model::{
    BidView, DeliveryBid, DeliveryRequest, DeliveryView, GeoPoint, Location, LocationView,
    PackageInfo, PackageView, ProofOfDelivery, ProofView, StatusUpdate, UpdateView, UserProfile,
};
use crate::status::{parse_status, parse_status_spec, DeliveryStatus};
use crate::text::{copy_opt_text, push_signed_decimal, same_text, signed_decimal};

verus! {

/// Why a transition was refused. The delivery is unchanged in each case.
#[derive(Clone, Copy, Debug, PartialEq, Eq, Structural)]
pub enum ValidationError {
    /// Only an open delivery can be edited.
    UpdateNotOpen,
    /// Only an open delivery can be withdrawn.
    DeleteNotOpen,
    /// Only on an open delivery can a bid be accepted.
    AcceptNotOpen,
    /// The delivery has no bid at that position.
    InvalidBidIndex,
    /// Only an accepted delivery, or one in transit, can be cancelled.
    CancelNotAccepted,
    /// Only an accepted delivery, or one in transit, can be completed.
    CompleteNotAccepted,
    /// A package of the delivery is handed over against signature only.
    SignatureRequired,
    /// A bid offers a positive amount.
    InvalidBidAmount,
}

impl ValidationError {
    /// The words in which the refusal is reported.
    pub fn message(&self) -> (r: &'static str)
        ensures
            r@ == match *self {
                ValidationError::UpdateNotOpen => "Cannot update delivery that is not open"@,
                ValidationError::DeleteNotOpen => "Cannot delete delivery that is not open"@,
                ValidationError::AcceptNotOpen => "Cannot accept a bid on a delivery that is not open"@,
                ValidationError::InvalidBidIndex => "Invalid bid index"@,
                ValidationError::CancelNotAccepted => "Can only cancel accepted deliveries"@,
                ValidationError::CompleteNotAccepted => "Can only complete accepted or in-transit deliveries"@,
                ValidationError::SignatureRequired => "Signature required for this delivery"@,
                ValidationError::InvalidBidAmount => "Bid amount must be positive"@,
            },
    {
        match self {
            ValidationError::UpdateNotOpen => "Cannot update delivery that is not open",
            ValidationError::DeleteNotOpen => "Cannot delete delivery that is not open",
            ValidationError::AcceptNotOpen => "Cannot accept a bid on a delivery that is not open",
            ValidationError::InvalidBidIndex => "Invalid bid index",
            ValidationError::CancelNotAccepted => "Can only cancel accepted deliveries",
            ValidationError::CompleteNotAccepted => "Can only complete accepted or in-transit deliveries",
            ValidationError::SignatureRequired => "Signature required for this delivery",
            ValidationError::InvalidBidAmount => "Bid amount must be positive",
        }
    }
}

/// The bids stand in ascending order of creation, and no two of them have
/// the same identifier.
pub open spec fn bids_in_order(d: DeliveryView) -> bool {
    forall|i: int, j: int|
        0 <= i < j < d.bids.len() ==> (#[trigger] d.bids[i]).id != (#[trigger] d.bids[j]).id
            && d.bids[i].created_at <= d.bids[j].created_at
}

/// The accepted bid, where there is one, is one of the bids.
pub open spec fn accepted_bid_known(d: DeliveryView) -> bool {
    d.accepted_bid matches Some(id) ==> exists|i: int|
        0 <= i < d.bids.len() && (#[trigger] d.bids[i]).id == id
}

/// Both ends of the delivery carry coordinates.
pub open spec fn has_route(pickup: LocationView, dropoff: LocationView) -> bool {
    pickup.coordinates is Some && dropoff.coordinates is Some
}

/// The distance is there exactly when both ends carry coordinates.
pub open spec fn distance_consistent(d: DeliveryView) -> bool {
    d.distance_meters is Some <==> has_route(d.pickup, d.dropoff)
}

/// What holds of a delivery that the state machine made and changed.
pub open spec fn well_formed(d: DeliveryView) -> bool {
    &&& bids_in_order(d)
    &&& accepted_bid_known(d)
    &&& distance_consistent(d)
}

/// The status update that carries a status and a time and nothing else.
pub open spec fn bare_update(delivery_id: Seq<char>, status: DeliveryStatus, now: i64) -> UpdateView {
    UpdateView {
        delivery_id,
        status,
        timestamp: now,
        proof_of_delivery: None,
        completed_at: None,
        accepted_bid: None,
        sender_rating: None,
        sender_feedback: None,
    }
}

fn make_bare_update(delivery_id: &String, status: DeliveryStatus, now: i64) -> (r: StatusUpdate)
    ensures
        r@ == bare_update(delivery_id@, status, now),
{
    StatusUpdate {
        delivery_id: delivery_id.clone(),
        status,
        timestamp: now,
        proof_of_delivery: None,
        completed_at: None,
        accepted_bid: None,
        sender_rating: None,
        sender_feedback: None,
    }
}

/// What accepting the bid at `index` comes to: on an open delivery with a
/// bid at that position the delivery is accepted, the bid is noted as the
/// accepted one and its amount becomes the offer.
pub open spec fn accept_outcome(d: DeliveryView, index: int) -> Result<DeliveryView, ValidationError> {
    if d.status != DeliveryStatus::Open {
        Err(ValidationError::AcceptNotOpen)
    } else if !(0 <= index < d.bids.len()) {
        Err(ValidationError::InvalidBidIndex)
    } else {
        Ok(
            DeliveryView {
                status: DeliveryStatus::Accepted,
                accepted_bid: Some(d.bids[index].id),
                offer_amount: d.bids[index].amount,
                ..d
            },
        )
    }
}

/// What cancelling comes to: an accepted delivery, or one in transit, expires.
pub open spec fn cancel_outcome(d: DeliveryView) -> Result<DeliveryView, ValidationError> {
    if d.status == DeliveryStatus::Accepted || d.status == DeliveryStatus::InTransit {
        Ok(DeliveryView { status: DeliveryStatus::Expired, ..d })
    } else {
        Err(ValidationError::CancelNotAccepted)
    }
}

/// What withdrawing comes to: an open delivery expires.
pub open spec fn expire_outcome(d: DeliveryView) -> Result<DeliveryView, ValidationError> {
    if d.status == DeliveryStatus::Open {
        Ok(DeliveryView { status: DeliveryStatus::Expired, ..d })
    } else {
        Err(ValidationError::DeleteNotOpen)
    }
}

/// The delivery with the status that `name` asks for; a name that asks for
/// none leaves the status as it is.
pub open spec fn with_named_status(d: DeliveryView, name: Seq<char>) -> DeliveryView {
    match parse_status_spec(name) {
        Some(status) => DeliveryView { status, ..d },
        None => d,
    }
}

/// The confirmed delivery: the status is `Confirmed`, and rating and
/// feedback are what the sender gave, or absent.
pub open spec fn confirmed(
    d: DeliveryView,
    rating: Option<u32>,
    feedback: Option<Seq<char>>,
) -> DeliveryView {
    DeliveryView {
        status: DeliveryStatus::Confirmed,
        sender_rating: rating,
        sender_feedback: feedback,
        ..d
    }
}

impl DeliveryRequest {
    /// Accepts the bid at position `index`. Returns the status update that
    /// announces the acceptance.
    pub fn accept_bid(&mut self, index: usize, now: i64) -> (r: Result<StatusUpdate, ValidationError>)
        ensures
            match r {
                Ok(update) => accept_outcome(old(self)@, index as int) == Ok::<
                    DeliveryView,
                    ValidationError,
                >(final(self)@) && update@ == (UpdateView {
                    accepted_bid: final(self)@.accepted_bid,
                    ..bare_update(old(self)@.id, DeliveryStatus::Accepted, now)
                }),
                Err(e) => accept_outcome(old(self)@, index as int) == Err::<
                    DeliveryView,
                    ValidationError,
                >(e) && final(self)@ == old(self)@,
            },
            well_formed(old(self)@) ==> well_formed(final(self)@),
    {
        if self.status != DeliveryStatus::Open {
            return Err(ValidationError::AcceptNotOpen);
        }
        if index >= self.bids.len() {
            return Err(ValidationError::InvalidBidIndex);
        }
        let bid_id = self.bids[index].id.clone();
        let amount = self.bids[index].amount;
        let mut update = make_bare_update(&self.id, DeliveryStatus::Accepted, now);
        update.accepted_bid = Some(bid_id.clone());
        self.accepted_bid = Some(bid_id);
        self.status = DeliveryStatus::Accepted;
        self.offer_amount = amount;
        proof {
            assert(self@.bids[index as int] == self.bids@[index as int]@);
            assert(self@.bids[index as int].id == bid_id@);
        }
        Ok(update)
    }

    /// Cancels a delivery that a courier had taken on.
    pub fn cancel(&mut self) -> (r: Result<(), ValidationError>)
        ensures
            match r {
                Ok(_) => cancel_outcome(old(self)@) == Ok::<DeliveryView, ValidationError>(
                    final(self)@,
                ),
                Err(e) => cancel_outcome(old(self)@) == Err::<DeliveryView, ValidationError>(e)
                    && final(self)@ == old(self)@,
            },
            well_formed(old(self)@) ==> well_formed(final(self)@),
    {
        if self.status != DeliveryStatus::Accepted && self.status != DeliveryStatus::InTransit {
            return Err(ValidationError::CancelNotAccepted);
        }
        self.status = DeliveryStatus::Expired;
        Ok(())
    }

    /// Withdraws a delivery that nobody has taken on yet.
    pub fn expire(&mut self) -> (r: Result<(), ValidationError>)
        ensures
            match r {
                Ok(_) => expire_outcome(old(self)@) == Ok::<DeliveryView, ValidationError>(
                    final(self)@,
                ),
                Err(e) => expire_outcome(old(self)@) == Err::<DeliveryView, ValidationError>(e)
                    && final(self)@ == old(self)@,
            },
            well_formed(old(self)@) ==> well_formed(final(self)@),
    {
        if self.status != DeliveryStatus::Open {
            return Err(ValidationError::DeleteNotOpen);
        }
        self.status = DeliveryStatus::Expired;
        Ok(())
    }

    /// Sets the status that `name` asks for. Returns the status update
    /// that announces the status the delivery has afterwards.
    pub fn force_status(&mut self, name: &str, now: i64) -> (r: StatusUpdate)
        ensures
            final(self)@ == with_named_status(old(self)@, name@),
            r@ == bare_update(old(self)@.id, final(self)@.status, now),
            well_formed(old(self)@) ==> well_formed(final(self)@),
    {
        match parse_status(name) {
            Some(status) => {
                self.status = status;
            },
            None => {},
        }
        make_bare_update(&self.id, self.status, now)
    }

    /// Confirms the delivery on behalf of its sender. Returns the status
    /// update that announces the confirmation.
    pub fn confirm(&mut self, rating: Option<u32>, feedback: Option<String>, now: i64) -> (r:
        StatusUpdate)
        ensures
            final(self)@ == confirmed(old(self)@, rating, feedback.deep_view()),
            r@ == (UpdateView {
                sender_rating: rating,
                sender_feedback: feedback.deep_view(),
                ..bare_update(old(self)@.id, DeliveryStatus::Confirmed, now)
            }),
            well_formed(old(self)@) ==> well_formed(final(self)@),
    {
        let mut update = make_bare_update(&self.id, DeliveryStatus::Confirmed, now);
        update.sender_rating = rating;
        update.sender_feedback = copy_opt_text(&feedback);
        self.status = DeliveryStatus::Confirmed;
        self.sender_rating = rating;
        self.sender_feedback = feedback;
        update
    }
}

/// One of the packages is handed over against signature only.
pub open spec fn signature_required(packages: Seq<PackageView>) -> bool {
    exists|i: int| 0 <= i < packages.len() && (#[trigger] packages[i]).requires_signature
}

/// The proof of delivery that a courier hands in at the time `now`.
pub open spec fn proof_handed_in(
    images: Seq<Seq<char>>,
    signature_name: Option<Seq<char>>,
    comments: Option<Seq<char>>,
    now: i64,
) -> ProofView {
    ProofView { images, signature_name, timestamp: now, location: None, comments }
}

/// What completing comes to: an accepted delivery, or one in transit, is
/// completed with the proof handed in, unless a package asks for a
/// signature and none is named.
pub open spec fn complete_outcome(
    d: DeliveryView,
    images: Seq<Seq<char>>,
    signature_name: Option<Seq<char>>,
    comments: Option<Seq<char>>,
    now: i64,
) -> Result<DeliveryView, ValidationError> {
    if d.status != DeliveryStatus::Accepted && d.status != DeliveryStatus::InTransit {
        Err(ValidationError::CompleteNotAccepted)
    } else if signature_required(d.packages) && signature_name is None {
        Err(ValidationError::SignatureRequired)
    } else {
        Ok(
            DeliveryView {
                status: DeliveryStatus::Completed,
                proof_of_delivery: Some(proof_handed_in(images, signature_name, comments, now)),
                completed_at: Some(now),
                ..d
            },
        )
    }
}

/// The first of `bids` with the identifier `id`.
pub open spec fn find_bid(bids: Seq<BidView>, id: Seq<char>) -> Option<BidView>
    decreases bids.len(),
{
    if bids.len() == 0 {
        None
    } else if bids[0].id == id {
        Some(bids[0])
    } else {
        find_bid(bids.drop_first(), id)
    }
}

/// The courier whose bid was accepted, where the delivery names an
/// accepted bid and holds a bid of that identifier.
pub open spec fn accepted_courier_spec(d: DeliveryView) -> Option<Seq<char>> {
    match d.accepted_bid {
        None => None,
        Some(id) => match find_bid(d.bids, id) {
            None => None,
            Some(bid) => Some(bid.courier),
        },
    }
}

/// What placing a bid comes to: a bid of a positive amount is appended to
/// the bids of the delivery.
pub open spec fn place_bid_outcome(d: DeliveryView, bid: BidView) -> Result<
    DeliveryView,
    ValidationError,
> {
    if bid.amount == 0 {
        Err(ValidationError::InvalidBidAmount)
    } else {
        Ok(DeliveryView { bids: d.bids.push(bid), ..d })
    }
}

/// The bid that a courier makes: the reputation and the count of completed
/// deliveries are taken from the profile as it is when the bid is made.
pub open spec fn bid_made(
    courier: crate::model::ProfileView,
    id: Seq<char>,
    amount: u64,
    estimated_time: Seq<char>,
    message: Option<Seq<char>>,
    now: i64,
) -> BidView {
    BidView {
        id,
        courier: courier.npub,
        amount,
        estimated_time,
        reputation: courier.reputation,
        completed_deliveries: courier.completed_deliveries,
        message,
        created_at: now,
    }
}

/// Whether one of the packages is handed over against signature only.
pub fn needs_signature(packages: &Vec<PackageInfo>) -> (r: bool)
    ensures
        r == signature_required(packages.deep_view()),
{
    let mut i: usize = 0;
    while i < packages.len()
        invariant
            i <= packages.len(),
            forall|j: int| 0 <= j < i ==> !(#[trigger] packages.deep_view()[j]).requires_signature,
        decreases packages.len() - i,
    {
        assert(packages.deep_view()[i as int] == packages@[i as int]@);
        if packages[i].requires_signature {
            return true;
        }
        i += 1;
    }
    false
}

/// The bid that `courier` makes under the identifier `id`.
pub fn new_bid(
    courier: &UserProfile,
    id: String,
    amount: u64,
    estimated_time: String,
    message: Option<String>,
    now: i64,
) -> (r: DeliveryBid)
    ensures
        r@ == bid_made(courier@, id@, amount, estimated_time@, message.deep_view(), now),
{
    DeliveryBid {
        id,
        courier: courier.npub.clone(),
        amount,
        estimated_time,
        reputation: courier.reputation,
        completed_deliveries: courier.completed_deliveries,
        message,
        created_at: now,
    }
}

impl DeliveryRequest {
    /// Completes the delivery with the proof that the courier hands in.
    /// Returns the status update that announces the completion.
    pub fn complete(
        &mut self,
        images: Vec<String>,
        signature_name: Option<String>,
        comments: Option<String>,
        now: i64,
    ) -> (r: Result<StatusUpdate, ValidationError>)
        ensures
            match r {
                Ok(update) => complete_outcome(
                    old(self)@,
                    images.deep_view(),
                    signature_name.deep_view(),
                    comments.deep_view(),
                    now,
                ) == Ok::<DeliveryView, ValidationError>(final(self)@) && update@ == (UpdateView {
                    proof_of_delivery: final(self)@.proof_of_delivery,
                    completed_at: Some(now),
                    ..bare_update(old(self)@.id, DeliveryStatus::Completed, now)
                }),
                Err(e) => complete_outcome(
                    old(self)@,
                    images.deep_view(),
                    signature_name.deep_view(),
                    comments.deep_view(),
                    now,
                ) == Err::<DeliveryView, ValidationError>(e) && final(self)@ == old(self)@,
            },
            well_formed(old(self)@) ==> well_formed(final(self)@),
    {
        if self.status != DeliveryStatus::Accepted && self.status != DeliveryStatus::InTransit {
            return Err(ValidationError::CompleteNotAccepted);
        }
        if needs_signature(&self.packages) && signature_name.is_none() {
            return Err(ValidationError::SignatureRequired);
        }
        let evidence = ProofOfDelivery {
            images,
            signature_name,
            timestamp: now,
            location: None,
            comments,
        };
        let mut update = make_bare_update(&self.id, DeliveryStatus::Completed, now);
        update.proof_of_delivery = Some(evidence.duplicate());
        update.completed_at = Some(now);
        self.proof_of_delivery = Some(evidence);
        self.status = DeliveryStatus::Completed;
        self.completed_at = Some(now);
        Ok(update)
    }

    /// The courier whose bid was accepted.
    pub fn accepted_courier(&self) -> (r: Option<String>)
        ensures
            r.deep_view() == accepted_courier_spec(self@),
    {
        match &self.accepted_bid {
            None => None,
            Some(id) => {
                let ghost bids = self@.bids;
                let mut i: usize = 0;
                assert(bids.skip(0) =~= bids);
                assert(self@.accepted_bid == Some(id@));
                while i < self.bids.len()
                    invariant
                        i <= self.bids.len(),
                        bids == self@.bids,
                        self@.accepted_bid == Some(id@),
                        find_bid(bids, id@) == find_bid(bids.skip(i as int), id@),
                    decreases self.bids.len() - i,
                {
                    proof {
                        assert(bids.skip(i as int).drop_first() =~= bids.skip(i as int + 1));
                        assert(bids.skip(i as int)[0] == self.bids@[i as int]@);
                    }
                    if same_text(self.bids[i].id.as_str(), id.as_str()) {
                        return Some(self.bids[i].courier.clone());
                    }
                    i += 1;
                }
                None
            },
        }
    }

    /// Appends a bid to the delivery. The bids stay in order where the
    /// identifier of the bid is new to the delivery and the bid was not
    /// created before the last of them.
    pub fn place_bid(&mut self, bid: DeliveryBid) -> (r: Result<(), ValidationError>)
        ensures
            match r {
                Ok(_) => place_bid_outcome(old(self)@, bid@) == Ok::<DeliveryView, ValidationError>(
                    final(self)@,
                ),
                Err(e) => place_bid_outcome(old(self)@, bid@) == Err::<
                    DeliveryView,
                    ValidationError,
                >(e) && final(self)@ == old(self)@,
            },
            well_formed(old(self)@) && (forall|i: int|
                0 <= i < old(self)@.bids.len() ==> (#[trigger] old(self)@.bids[i]).id != bid@.id
                    && old(self)@.bids[i].created_at <= bid@.created_at) ==> well_formed(
                final(self)@,
            ),
    {
        if bid.amount == 0 {
            return Err(ValidationError::InvalidBidAmount);
        }
        let ghost before = self@.bids;
        self.bids.push(bid);
        proof {
            assert(self@.bids =~= before.push(bid@));
            if well_formed(old(self)@) {
                if let Some(id) = old(self)@.accepted_bid {
                    let i = choose|i: int| 0 <= i < before.len() && (#[trigger] before[i]).id == id;
                    assert(self@.bids[i].id == id);
                }
            }
        }
        Ok(())
    }
}

/// How long a new delivery stays open for bids: seven days, in seconds.
pub const OPEN_FOR_SECONDS: i64 = 604800;

/// What a sender asks for.
#[derive(Clone, Debug)]
pub struct NewDelivery {
    pub pickup: Location,
    pub dropoff: Location,
    pub packages: Vec<PackageInfo>,
    pub offer_amount: u64,
    pub insurance_amount: Option<u64>,
    pub time_window: String,
    pub sender: String,
}

/// The mathematical view of a [`NewDelivery`].
pub struct NewDeliveryView {
    pub pickup: LocationView,
    pub dropoff: LocationView,
    pub packages: Seq<PackageView>,
    pub offer_amount: u64,
    pub insurance_amount: Option<u64>,
    pub time_window: Seq<char>,
    pub sender: Seq<char>,
}

impl View for NewDelivery {
    type V = NewDeliveryView;

    open spec fn view(&self) -> NewDeliveryView {
        NewDeliveryView {
            pickup: self.pickup@,
            dropoff: self.dropoff@,
            packages: self.packages.deep_view(),
            offer_amount: self.offer_amount,
            insurance_amount: self.insurance_amount,
            time_window: self.time_window@,
            sender: self.sender@,
        }
    }
}

/// The fields of an open delivery that its sender wants changed; an absent
/// field stays as it is.
#[derive(Clone, Debug)]
pub struct DeliveryPatch {
    pub pickup: Option<Location>,
    pub dropoff: Option<Location>,
    pub packages: Option<Vec<PackageInfo>>,
    pub offer_amount: Option<u64>,
    pub insurance_amount: Option<u64>,
    pub time_window: Option<String>,
}

/// The mathematical view of a [`DeliveryPatch`].
pub struct PatchView {
    pub pickup: Option<LocationView>,
    pub dropoff: Option<LocationView>,
    pub packages: Option<Seq<PackageView>>,
    pub offer_amount: Option<u64>,
    pub insurance_amount: Option<u64>,
    pub time_window: Option<Seq<char>>,
}

impl View for DeliveryPatch {
    type V = PatchView;

    open spec fn view(&self) -> PatchView {
        PatchView {
            pickup: self.pickup.deep_view(),
            dropoff: self.dropoff.deep_view(),
            packages: self.packages.deep_view(),
            offer_amount: self.offer_amount,
            insurance_amount: self.insurance_amount,
            time_window: self.time_window.deep_view(),
        }
    }
}

/// The two ends of a route, where both carry coordinates.
pub open spec fn route_of(pickup: LocationView, dropoff: LocationView) -> Option<
    (GeoPoint, GeoPoint),
> {
    if has_route(pickup, dropoff) {
        Some((pickup.coordinates->Some_0, dropoff.coordinates->Some_0))
    } else {
        None
    }
}

/// The distance of a delivery: the measured one where both ends carry
/// coordinates, none otherwise.
pub open spec fn distance_for(pickup: LocationView, dropoff: LocationView, measured: u64) -> Option<
    u64,
> {
    if has_route(pickup, dropoff) {
        Some(measured)
    } else {
        None
    }
}

/// The identifier of a delivery made at `millis` milliseconds of Unix time.
pub open spec fn delivery_id_spec(millis: i64) -> Seq<char> {
    "delivery_"@ + signed_decimal(millis as int)
}

/// The identifier of a bid made at `millis` milliseconds of Unix time.
pub open spec fn bid_id_spec(millis: i64) -> Seq<char> {
    "bid_"@ + signed_decimal(millis as int)
}

/// The identifier of a delivery made at `millis` milliseconds of Unix time.
pub fn delivery_id(millis: i64) -> (r: String)
    ensures
        r@ == delivery_id_spec(millis),
{
    let mut id = "delivery_".to_owned();
    push_signed_decimal(&mut id, millis);
    id
}

/// The identifier of a bid made at `millis` milliseconds of Unix time.
pub fn bid_id(millis: i64) -> (r: String)
    ensures
        r@ == bid_id_spec(millis),
{
    let mut id = "bid_".to_owned();
    push_signed_decimal(&mut id, millis);
    id
}

/// The delivery that a request makes: open, without bids, created at
/// `now` and open for bids for seven days.
pub open spec fn created(req: NewDeliveryView, id: Seq<char>, now: i64, measured: u64) -> DeliveryView {
    DeliveryView {
        id,
        sender: req.sender,
        pickup: req.pickup,
        dropoff: req.dropoff,
        packages: req.packages,
        offer_amount: req.offer_amount,
        insurance_amount: req.insurance_amount,
        time_window: req.time_window,
        expires_at: Some((now + OPEN_FOR_SECONDS) as i64),
        status: DeliveryStatus::Open,
        bids: Seq::empty(),
        accepted_bid: None,
        created_at: now,
        distance_meters: distance_for(req.pickup, req.dropoff, measured),
        proof_of_delivery: None,
        sender_feedback: None,
        sender_rating: None,
        completed_at: None,
    }
}

/// The delivery with the fields of the patch laid over it and the distance
/// set anew for the ends it then has.
pub open spec fn patched(d: DeliveryView, patch: PatchView, measured: u64) -> DeliveryView {
    let pickup = if patch.pickup is Some {
        patch.pickup->Some_0
    } else {
        d.pickup
    };
    let dropoff = if patch.dropoff is Some {
        patch.dropoff->Some_0
    } else {
        d.dropoff
    };
    DeliveryView {
        pickup,
        dropoff,
        packages: if patch.packages is Some {
            patch.packages->Some_0
        } else {
            d.packages
        },
        offer_amount: if patch.offer_amount is Some {
            patch.offer_amount->Some_0
        } else {
            d.offer_amount
        },
        insurance_amount: if patch.insurance_amount is Some {
            patch.insurance_amount
        } else {
            d.insurance_amount
        },
        time_window: if patch.time_window is Some {
            patch.time_window->Some_0
        } else {
            d.time_window
        },
        distance_meters: distance_for(pickup, dropoff, measured),
        ..d
    }
}

/// What editing comes to: an open delivery takes the patch.
pub open spec fn update_outcome(d: DeliveryView, patch: PatchView, measured: u64) -> Result<
    DeliveryView,
    ValidationError,
> {
    if d.status == DeliveryStatus::Open {
        Ok(patched(d, patch, measured))
    } else {
        Err(ValidationError::UpdateNotOpen)
    }
}

fn route_between(pickup: &Location, dropoff: &Location) -> (r: Option<(GeoPoint, GeoPoint)>)
    ensures
        r == route_of(pickup@, dropoff@),
{
    match (pickup.coordinates, dropoff.coordinates) {
        (Some(a), Some(b)) => Some((a, b)),
        _ => None,
    }
}

impl NewDelivery {
    /// The two ends between which the distance of the delivery is measured.
    pub fn route(&self) -> (r: Option<(GeoPoint, GeoPoint)>)
        ensures
            r == route_of(self@.pickup, self@.dropoff),
    {
        route_between(&self.pickup, &self.dropoff)
    }
}

impl DeliveryPatch {
    /// The two ends that `delivery` has once the patch is laid over it.
    pub fn route_after(&self, delivery: &DeliveryRequest) -> (r: Option<(GeoPoint, GeoPoint)>)
        ensures
            r == route_of(
                patched(delivery@, self@, 0).pickup,
                patched(delivery@, self@, 0).dropoff,
            ),
    {
        let pickup = match &self.pickup {
            Some(p) => p,
            None => &delivery.pickup,
        };
        let dropoff = match &self.dropoff {
            Some(p) => p,
            None => &delivery.dropoff,
        };
        route_between(pickup, dropoff)
    }
}

/// Whether a delivery made at `now` can be given its time of expiry.
pub fn can_create_at(now: i64) -> (r: bool)
    ensures
        r == (now + OPEN_FOR_SECONDS <= i64::MAX),
{
    now <= i64::MAX - OPEN_FOR_SECONDS
}

/// Makes the delivery that `req` asks for. `measured_meters` is the
/// distance between the ends of the route; it is used where both ends
/// carry coordinates, and ignored otherwise.
pub fn create(req: NewDelivery, id: String, now: i64, measured_meters: u64) -> (r: DeliveryRequest)
    requires
        now + OPEN_FOR_SECONDS <= i64::MAX,
    ensures
        r@ == created(req@, id@, now, measured_meters),
        well_formed(r@),
{
    let distance = match route_between(&req.pickup, &req.dropoff) {
        Some(_) => Some(measured_meters),
        None => None,
    };
    let r = DeliveryRequest {
        id,
        sender: req.sender,
        pickup: req.pickup,
        dropoff: req.dropoff,
        packages: req.packages,
        offer_amount: req.offer_amount,
        insurance_amount: req.insurance_amount,
        time_window: req.time_window,
        expires_at: Some(now + OPEN_FOR_SECONDS),
        status: DeliveryStatus::Open,
        bids: Vec::new(),
        accepted_bid: None,
        created_at: now,
        distance_meters: distance,
        proof_of_delivery: None,
        sender_feedback: None,
        sender_rating: None,
        completed_at: None,
    };
    assert(r@.bids =~= Seq::<BidView>::empty());
    r
}

impl DeliveryRequest {
    /// Lays `patch` over an open delivery. `measured_meters` is the
    /// distance between the ends that the delivery has afterwards; it is
    /// used where both carry coordinates, and ignored otherwise.
    pub fn update(&mut self, patch: DeliveryPatch, measured_meters: u64) -> (r: Result<
        (),
        ValidationError,
    >)
        ensures
            match r {
                Ok(_) => update_outcome(old(self)@, patch@, measured_meters) == Ok::<
                    DeliveryView,
                    ValidationError,
                >(final(self)@),
                Err(e) => update_outcome(old(self)@, patch@, measured_meters) == Err::<
                    DeliveryView,
                    ValidationError,
                >(e) && final(self)@ == old(self)@,
            },
            well_formed(old(self)@) ==> well_formed(final(self)@),
            r is Ok ==> distance_consistent(final(self)@),
    {
        if self.status != DeliveryStatus::Open {
            return Err(ValidationError::UpdateNotOpen);
        }
        match patch.pickup {
            Some(pickup) => {
                self.pickup = pickup;
            },
            None => {},
        }
        match patch.dropoff {
            Some(dropoff) => {
                self.dropoff = dropoff;
            },
            None => {},
        }
        match patch.packages {
            Some(packages) => {
                self.packages = packages;
            },
            None => {},
        }
        match patch.offer_amount {
            Some(offer_amount) => {
                self.offer_amount = offer_amount;
            },
            None => {},
        }
        match patch.insurance_amount {
            Some(insurance_amount) => {
                self.insurance_amount = Some(insurance_amount);
            },
            None => {},
        }
        match patch.time_window {
            Some(time_window) => {
                self.time_window = time_window;
            },
            None => {},
        }
        self.distance_meters = match route_between(&self.pickup, &self.dropoff) {
            Some(_) => Some(measured_meters),
            None => None,
        };
        Ok(())
    }
}

} // verus!
