//! The marketplace held in memory: the deliveries and the profiles of one
//! process, each identifier once, and the operations on them. Every
//! operation takes the store from one consistent state to the next.

use vstd::prelude::*;
use crate::catalog::{filter_by_status, with_status};
use crate::machine::{
    accept_outcome, accepted_courier_spec, bid_id, bid_id_spec, bid_made, can_create_at,
    cancel_outcome, complete_outcome, confirmed, create, created, delivery_id, delivery_id_spec,
    expire_outcome, new_bid, place_bid_outcome, update_outcome, with_named_status, DeliveryPatch,
    NewDelivery, NewDeliveryView, PatchView, ValidationError, OPEN_FOR_SECONDS,
};
use crate::model::{
    fresh_profile, BidView, DeliveryBid, DeliveryRequest, DeliveryView, ProfileView, UserProfile,
};
use crate::reputation::{
    profile_after_cancellation, profile_after_confirmation, profile_with_details,
};
use crate::service::{bid_view, delivery_view, ServiceError};
use crate::text::same_text;

verus! {

/// The deliveries and the profiles of one process.
#[derive(Clone, Debug)]
pub struct Marketplace {
    pub deliveries: Vec<DeliveryRequest>,
    pub users: Vec<UserProfile>,
}

/// The mathematical view of a [`Marketplace`].
pub struct MarketView {
    pub deliveries: Seq<DeliveryView>,
    pub users: Seq<ProfileView>,
}

impl View for Marketplace {
    type V = MarketView;

    open spec fn view(&self) -> MarketView {
        MarketView { deliveries: self.deliveries.deep_view(), users: self.users.deep_view() }
    }
}

/// The first place of `s` at which `wanted` holds.
pub open spec fn first_place<A>(s: Seq<A>, wanted: spec_fn(A) -> bool) -> Option<int>
    decreases s.len(),
{
    if s.len() == 0 {
        None
    } else {
        match first_place(s.drop_last(), wanted) {
            Some(i) => Some(i),
            None => if wanted(s.last()) {
                Some(s.len() - 1)
            } else {
                None
            },
        }
    }
}

/// The first place is a place at which the test holds, with none before
/// it; there is none exactly when the test holds nowhere.
pub proof fn lemma_first_place<A>(s: Seq<A>, wanted: spec_fn(A) -> bool)
    ensures
        first_place(s, wanted) matches Some(i) ==> 0 <= i < s.len() && wanted(s[i]) && forall|
            j: int,
        | 0 <= j < i ==> !wanted(#[trigger] s[j]),
        first_place(s, wanted) is None ==> forall|j: int|
            0 <= j < s.len() ==> !wanted(#[trigger] s[j]),
    decreases s.len(),
{
    if s.len() > 0 {
        let front = s.drop_last();
        lemma_first_place(front, wanted);
        assert forall|j: int| 0 <= j < front.len() implies front[j] == s[j] by {}
        match first_place(front, wanted) {
            Some(i) => {
                assert(front[i] == s[i]);
                assert forall|j: int| 0 <= j < i implies !wanted(#[trigger] s[j]) by {
                    assert(front[j] == s[j]);
                }
            },
            None => {
                assert forall|j: int| 0 <= j < s.len() - 1 implies !wanted(#[trigger] s[j]) by {
                    assert(front[j] == s[j]);
                }
            },
        }
    }
}

/// The test for the delivery `id`.
pub open spec fn delivery_named(id: Seq<char>) -> spec_fn(DeliveryView) -> bool {
    |d: DeliveryView| d.id == id
}

/// The test for the profile of the user `npub`.
pub open spec fn user_named(npub: Seq<char>) -> spec_fn(ProfileView) -> bool {
    |p: ProfileView| p.npub == npub
}

/// No two deliveries have the same identifier, and no two profiles the
/// same user.
pub open spec fn market_well_formed(m: MarketView) -> bool {
    &&& forall|i: int, j: int|
        0 <= i < j < m.deliveries.len() ==> (#[trigger] m.deliveries[i]).id != (
        #[trigger] m.deliveries[j]).id
    &&& forall|i: int, j: int|
        0 <= i < j < m.users.len() ==> (#[trigger] m.users[i]).npub != (#[trigger] m.users[j]).npub
}

/// The profile of `npub` among `users`, or the profile of a user of whom
/// nothing is known.
pub open spec fn profile_in(users: Seq<ProfileView>, npub: Seq<char>) -> ProfileView {
    match first_place(users, user_named(npub)) {
        Some(k) => users[k],
        None => fresh_profile(npub),
    }
}

/// `users` with the profile `p` in the place of the profile of its user,
/// or at the end where the user had none.
pub open spec fn with_profile(users: Seq<ProfileView>, p: ProfileView) -> Seq<ProfileView> {
    match first_place(users, user_named(p.npub)) {
        Some(k) => users.update(k, p),
        None => users.push(p),
    }
}

/// `deliveries` with `d` in the place of the delivery of its identifier,
/// or at the end where there was none.
pub open spec fn with_delivery(deliveries: Seq<DeliveryView>, d: DeliveryView) -> Seq<DeliveryView> {
    match first_place(deliveries, delivery_named(d.id)) {
        Some(k) => deliveries.update(k, d),
        None => deliveries.push(d),
    }
}

/// What an operation on the delivery `id` comes to: the delivery must be
/// there and must allow the operation; the store then holds the delivery
/// as the operation leaves it, and is unchanged otherwise.
pub open spec fn on_delivery(
    m: MarketView,
    id: Seq<char>,
    outcome: spec_fn(DeliveryView) -> Result<DeliveryView, ValidationError>,
) -> (MarketView, Result<DeliveryView, ServiceError>) {
    match first_place(m.deliveries, delivery_named(id)) {
        None => (m, Err(ServiceError::NotFound)),
        Some(i) => match outcome(m.deliveries[i]) {
            Err(e) => (m, Err(ServiceError::Invalid(e))),
            Ok(after) => (MarketView { deliveries: m.deliveries.update(i, after), ..m }, Ok(after)),
        },
    }
}

/// The profiles after the courier of the confirmed delivery `d` was paid:
/// a delivery without an accepted courier pays nobody, and a profile whose
/// counters have no room stays as it is.
pub open spec fn users_after_confirmation(
    users: Seq<ProfileView>,
    d: DeliveryView,
    rating: Option<u32>,
) -> Seq<ProfileView> {
    match accepted_courier_spec(d) {
        None => users,
        Some(courier) => {
            let p = profile_in(users, courier);
            if p.completed_deliveries < u32::MAX && p.total_earnings + d.offer_amount <= u64::MAX {
                with_profile(users, profile_after_confirmation(p, d.offer_amount, rating))
            } else {
                users
            }
        },
    }
}

/// The profiles after the courier of the cancelled delivery `d` was paid.
pub open spec fn users_after_cancellation(users: Seq<ProfileView>, d: DeliveryView) -> Seq<
    ProfileView,
> {
    match accepted_courier_spec(d) {
        None => users,
        Some(courier) => {
            let p = profile_in(users, courier);
            if p.total_earnings + d.offer_amount <= u64::MAX {
                with_profile(users, profile_after_cancellation(p, d.offer_amount))
            } else {
                users
            }
        },
    }
}

impl Marketplace {
    /// The place of the delivery `id`.
    pub fn find_delivery(&self, id: &str) -> (r: Option<usize>)
        ensures
            match r {
                Some(i) => first_place(self@.deliveries, delivery_named(id@)) == Some(i as int) && i
                    < self.deliveries.len(),
                None => first_place(self@.deliveries, delivery_named(id@)) is None,
            },
    {
        let ghost s = self@.deliveries;
        let mut i: usize = 0;
        while i < self.deliveries.len()
            invariant
                i <= self.deliveries.len(),
                s == self@.deliveries,
                forall|j: int| 0 <= j < i ==> (#[trigger] s[j]).id != id@,
            decreases self.deliveries.len() - i,
        {
            assert(s[i as int] == self.deliveries@[i as int]@);
            if same_text(self.deliveries[i].id.as_str(), id) {
                proof {
                    lemma_first_place(s, delivery_named(id@));
                    assert((delivery_named(id@))(s[i as int]));
                    let k = first_place(s, delivery_named(id@))->Some_0;
                    assert((delivery_named(id@))(s[k]));
                }
                return Some(i);
            }
            i += 1;
        }
        proof {
            lemma_first_place(s, delivery_named(id@));
            if first_place(s, delivery_named(id@)) is Some {
                let k = first_place(s, delivery_named(id@))->Some_0;
                assert((delivery_named(id@))(s[k]));
            }
        }
        None
    }

    /// The place of the profile of the user `npub`.
    pub fn find_user(&self, npub: &str) -> (r: Option<usize>)
        ensures
            match r {
                Some(i) => first_place(self@.users, user_named(npub@)) == Some(i as int) && i
                    < self.users.len(),
                None => first_place(self@.users, user_named(npub@)) is None,
            },
    {
        let ghost s = self@.users;
        let mut i: usize = 0;
        while i < self.users.len()
            invariant
                i <= self.users.len(),
                s == self@.users,
                forall|j: int| 0 <= j < i ==> (#[trigger] s[j]).npub != npub@,
            decreases self.users.len() - i,
        {
            assert(s[i as int] == self.users@[i as int]@);
            if same_text(self.users[i].npub.as_str(), npub) {
                proof {
                    lemma_first_place(s, user_named(npub@));
                    assert((user_named(npub@))(s[i as int]));
                    let k = first_place(s, user_named(npub@))->Some_0;
                    assert((user_named(npub@))(s[k]));
                }
                return Some(i);
            }
            i += 1;
        }
        proof {
            lemma_first_place(s, user_named(npub@));
            if first_place(s, user_named(npub@)) is Some {
                let k = first_place(s, user_named(npub@))->Some_0;
                assert((user_named(npub@))(s[k]));
            }
        }
        None
    }
}

/// What accepting the bid at `index` on the delivery `id` comes to.
pub open spec fn market_accept(m: MarketView, id: Seq<char>, index: int) -> (
    MarketView,
    Result<DeliveryView, ServiceError>,
) {
    on_delivery(m, id, |d: DeliveryView| accept_outcome(d, index))
}

impl Marketplace {
    /// A store that holds nothing.
    pub fn new() -> (r: Marketplace)
        ensures
            r@.deliveries == Seq::<DeliveryView>::empty(),
            r@.users == Seq::<ProfileView>::empty(),
            market_well_formed(r@),
    {
        let r = Marketplace { deliveries: Vec::new(), users: Vec::new() };
        assert(r@.deliveries =~= Seq::<DeliveryView>::empty());
        assert(r@.users =~= Seq::<ProfileView>::empty());
        r
    }

    /// Accepts the bid at `index` on the delivery `id`. Returns the
    /// delivery as it is afterwards.
    pub fn accept_bid_at(&mut self, id: &str, index: usize, now: i64) -> (r: Result<
        DeliveryRequest,
        ServiceError,
    >)
        ensures
            (final(self)@, delivery_view(r)) == market_accept(old(self)@, id@, index as int),
            market_well_formed(old(self)@) ==> market_well_formed(final(self)@),
    {
        match self.find_delivery(id) {
            None => Err(ServiceError::NotFound),
            Some(i) => {
                let ghost before = self@.deliveries;
                assert(before[i as int] == self.deliveries@[i as int]@);
                match self.deliveries[i].accept_bid(index, now) {
                    Ok(_) => {
                        let copy = self.deliveries[i].duplicate();
                        assert(self@.deliveries =~= before.update(i as int, copy@));
                        Ok(copy)
                    },
                    Err(e) => {
                        assert(self@.deliveries =~= before);
                        Err(ServiceError::Invalid(e))
                    },
                }
            },
        }
    }
}

/// What setting a status by name on the delivery `id` comes to.
pub open spec fn market_force_status(m: MarketView, id: Seq<char>, name: Seq<char>) -> (
    MarketView,
    Result<DeliveryView, ServiceError>,
) {
    on_delivery(
        m,
        id,
        |d: DeliveryView| Ok::<DeliveryView, ValidationError>(with_named_status(d, name)),
    )
}

/// What completing the delivery `id` comes to.
pub open spec fn market_complete(
    m: MarketView,
    id: Seq<char>,
    images: Seq<Seq<char>>,
    signature_name: Option<Seq<char>>,
    comments: Option<Seq<char>>,
    now: i64,
) -> (MarketView, Result<DeliveryView, ServiceError>) {
    on_delivery(m, id, |d: DeliveryView| complete_outcome(d, images, signature_name, comments, now))
}

/// What editing the delivery `id` comes to.
pub open spec fn market_update(m: MarketView, id: Seq<char>, patch: PatchView, measured: u64) -> (
    MarketView,
    Result<DeliveryView, ServiceError>,
) {
    on_delivery(m, id, |d: DeliveryView| update_outcome(d, patch, measured))
}

/// What withdrawing the delivery `id` comes to.
pub open spec fn market_delete(m: MarketView, id: Seq<char>) -> (
    MarketView,
    Result<DeliveryView, ServiceError>,
) {
    on_delivery(m, id, |d: DeliveryView| expire_outcome(d))
}

/// What confirming the delivery `id` comes to: the delivery is confirmed
/// and its courier is paid.
pub open spec fn market_confirm(
    m: MarketView,
    id: Seq<char>,
    rating: Option<u32>,
    feedback: Option<Seq<char>>,
) -> (MarketView, Result<DeliveryView, ServiceError>) {
    match first_place(m.deliveries, delivery_named(id)) {
        None => (m, Err(ServiceError::NotFound)),
        Some(i) => {
            let after = confirmed(m.deliveries[i], rating, feedback);
            (
                MarketView {
                    deliveries: m.deliveries.update(i, after),
                    users: users_after_confirmation(m.users, after, rating),
                },
                Ok(after),
            )
        },
    }
}

/// What cancelling the delivery `id` comes to: a delivery that a courier
/// had taken on expires and its courier is paid.
pub open spec fn market_cancel(m: MarketView, id: Seq<char>) -> (
    MarketView,
    Result<DeliveryView, ServiceError>,
) {
    match first_place(m.deliveries, delivery_named(id)) {
        None => (m, Err(ServiceError::NotFound)),
        Some(i) => match cancel_outcome(m.deliveries[i]) {
            Err(e) => (m, Err(ServiceError::Invalid(e))),
            Ok(after) => (
                MarketView {
                    deliveries: m.deliveries.update(i, after),
                    users: users_after_cancellation(m.users, after),
                },
                Ok(after),
            ),
        },
    }
}

/// What making a delivery comes to: the store holds it under its
/// identifier, in the place of a delivery of the same identifier if there
/// was one.
pub open spec fn market_create(
    m: MarketView,
    req: NewDeliveryView,
    millis: i64,
    now: i64,
    measured: u64,
) -> (MarketView, Option<DeliveryView>) {
    if now + OPEN_FOR_SECONDS <= i64::MAX {
        let d = created(req, delivery_id_spec(millis), now, measured);
        (MarketView { deliveries: with_delivery(m.deliveries, d), ..m }, Some(d))
    } else {
        (m, None)
    }
}

/// What placing a bid on the delivery `id` comes to: the bid carries the
/// courier's reputation as the store has it and is appended to the bids.
pub open spec fn market_place_bid(
    m: MarketView,
    id: Seq<char>,
    courier: Seq<char>,
    amount: u64,
    estimated_time: Seq<char>,
    message: Option<Seq<char>>,
    millis: i64,
    now: i64,
) -> (MarketView, Result<BidView, ServiceError>) {
    match first_place(m.deliveries, delivery_named(id)) {
        None => (m, Err(ServiceError::NotFound)),
        Some(i) => {
            let bid = bid_made(
                profile_in(m.users, courier),
                bid_id_spec(millis),
                amount,
                estimated_time,
                message,
                now,
            );
            match place_bid_outcome(m.deliveries[i], bid) {
                Err(e) => (m, Err(ServiceError::Invalid(e))),
                Ok(after) => (
                    MarketView { deliveries: m.deliveries.update(i, after), ..m },
                    Ok(bid),
                ),
            }
        },
    }
}

/// The delivery `id` as the store holds it.
pub open spec fn market_get(m: MarketView, id: Seq<char>) -> Result<DeliveryView, ServiceError> {
    match first_place(m.deliveries, delivery_named(id)) {
        None => Err(ServiceError::NotFound),
        Some(i) => Ok(m.deliveries[i]),
    }
}

impl Marketplace {
    /// The delivery `id`.
    pub fn get_delivery(&self, id: &str) -> (r: Result<DeliveryRequest, ServiceError>)
        ensures
            delivery_view(r) == market_get(self@, id@),
    {
        match self.find_delivery(id) {
            None => Err(ServiceError::NotFound),
            Some(i) => {
                assert(self@.deliveries[i as int] == self.deliveries@[i as int]@);
                Ok(self.deliveries[i].duplicate())
            },
        }
    }

    /// The deliveries of the store, all of them or those of one status.
    pub fn get_deliveries(&self, query: Option<&str>) -> (r: Vec<DeliveryRequest>)
        ensures
            r.deep_view() == with_status(self@.deliveries, query.deep_view()),
    {
        let mut copies: Vec<DeliveryRequest> = Vec::new();
        let mut i: usize = 0;
        while i < self.deliveries.len()
            invariant
                i <= self.deliveries.len(),
                copies.len() == i,
                forall|j: int| 0 <= j < i ==> copies@[j]@ == self.deliveries@[j]@,
            decreases self.deliveries.len() - i,
        {
            copies.push(self.deliveries[i].duplicate());
            i += 1;
        }
        assert(copies.deep_view() =~= self@.deliveries);
        filter_by_status(copies, query)
    }

    /// The profile of the user `npub`.
    pub fn get_user(&self, npub: &str) -> (r: UserProfile)
        ensures
            r@ == profile_in(self@.users, npub@),
    {
        match self.find_user(npub) {
            Some(k) => {
                assert(self@.users[k as int] == self.users@[k as int]@);
                self.users[k].duplicate()
            },
            None => UserProfile::unseen(npub),
        }
    }

    /// Puts `profile` in the place of the profile of its user.
    pub fn put_user(&mut self, profile: UserProfile)
        ensures
            final(self)@.users == with_profile(old(self)@.users, profile@),
            final(self)@.deliveries == old(self)@.deliveries,
            market_well_formed(old(self)@) ==> market_well_formed(final(self)@),
    {
        let ghost before = self@.users;
        proof {
            lemma_first_place(before, user_named(profile@.npub));
        }
        match self.find_user(profile.npub.as_str()) {
            Some(k) => {
                assert(before[k as int] == self.users@[k as int]@);
                self.users[k] = profile;
                assert(self@.users =~= before.update(k as int, profile@));
                assert((user_named(profile@.npub))(before[k as int]));
            },
            None => {
                self.users.push(profile);
                assert(self@.users =~= before.push(profile@));
                assert forall|j: int| 0 <= j < before.len() implies (#[trigger] before[j]).npub
                    != profile@.npub by {
                    assert(!(user_named(profile@.npub))(before[j]));
                }
            },
        }
    }

    /// Puts `delivery` in the place of the delivery of its identifier.
    pub fn put_delivery(&mut self, delivery: DeliveryRequest)
        ensures
            final(self)@.deliveries == with_delivery(old(self)@.deliveries, delivery@),
            final(self)@.users == old(self)@.users,
            market_well_formed(old(self)@) ==> market_well_formed(final(self)@),
    {
        let ghost before = self@.deliveries;
        proof {
            lemma_first_place(before, delivery_named(delivery@.id));
        }
        match self.find_delivery(delivery.id.as_str()) {
            Some(k) => {
                assert(before[k as int] == self.deliveries@[k as int]@);
                self.deliveries[k] = delivery;
                assert(self@.deliveries =~= before.update(k as int, delivery@));
                assert((delivery_named(delivery@.id))(before[k as int]));
            },
            None => {
                self.deliveries.push(delivery);
                assert(self@.deliveries =~= before.push(delivery@));
                assert forall|j: int| 0 <= j < before.len() implies (#[trigger] before[j]).id
                    != delivery@.id by {
                    assert(!(delivery_named(delivery@.id))(before[j]));
                }
            },
        }
    }

    /// Replaces the name and the payment address of the user `npub` where
    /// new ones are given. Returns the profile as it is afterwards.
    pub fn update_user(
        &mut self,
        npub: &str,
        display_name: &Option<String>,
        lightning_address: &Option<String>,
    ) -> (r: UserProfile)
        ensures
            r@ == profile_with_details(
                profile_in(old(self)@.users, npub@),
                display_name.deep_view(),
                lightning_address.deep_view(),
            ),
            final(self)@.users == with_profile(old(self)@.users, r@),
            final(self)@.deliveries == old(self)@.deliveries,
            market_well_formed(old(self)@) ==> market_well_formed(final(self)@),
    {
        let mut profile = self.get_user(npub);
        profile.update_details(display_name, lightning_address);
        let copy = profile.duplicate();
        self.put_user(profile);
        copy
    }

    /// Makes a delivery at the time `now`, `millis` in milliseconds.
    pub fn create_delivery_at(
        &mut self,
        req: NewDelivery,
        millis: i64,
        now: i64,
        measured_meters: u64,
    ) -> (r: Option<DeliveryRequest>)
        ensures
            (final(self)@, r.deep_view()) == market_create(
                old(self)@,
                req@,
                millis,
                now,
                measured_meters,
            ),
            market_well_formed(old(self)@) ==> market_well_formed(final(self)@),
    {
        if can_create_at(now) {
            let delivery = create(req, delivery_id(millis), now, measured_meters);
            let copy = delivery.duplicate();
            self.put_delivery(delivery);
            Some(copy)
        } else {
            None
        }
    }

    /// Places the bid of `courier` on the delivery `id` at the time `now`,
    /// `millis` in milliseconds. Returns the bid.
    pub fn place_bid_at(
        &mut self,
        id: &str,
        courier: &str,
        amount: u64,
        estimated_time: String,
        message: Option<String>,
        millis: i64,
        now: i64,
    ) -> (r: Result<DeliveryBid, ServiceError>)
        ensures
            (final(self)@, bid_view(r)) == market_place_bid(
                old(self)@,
                id@,
                courier@,
                amount,
                estimated_time@,
                message.deep_view(),
                millis,
                now,
            ),
            market_well_formed(old(self)@) ==> market_well_formed(final(self)@),
    {
        match self.find_delivery(id) {
            None => Err(ServiceError::NotFound),
            Some(i) => {
                let profile = self.get_user(courier);
                let bid = new_bid(&profile, bid_id(millis), amount, estimated_time, message, now);
                let copy = bid.duplicate();
                let ghost before = self@.deliveries;
                assert(before[i as int] == self.deliveries@[i as int]@);
                match self.deliveries[i].place_bid(bid) {
                    Ok(_) => {
                        assert(self@.deliveries =~= before.update(
                            i as int,
                            self.deliveries@[i as int]@,
                        ));
                        Ok(copy)
                    },
                    Err(e) => {
                        assert(self@.deliveries =~= before);
                        Err(ServiceError::Invalid(e))
                    },
                }
            },
        }
    }

    /// Sets the status that `name` asks for on the delivery `id`.
    pub fn update_delivery_status_at(&mut self, id: &str, name: &str, now: i64) -> (r: Result<
        DeliveryRequest,
        ServiceError,
    >)
        ensures
            (final(self)@, delivery_view(r)) == market_force_status(old(self)@, id@, name@),
            market_well_formed(old(self)@) ==> market_well_formed(final(self)@),
    {
        match self.find_delivery(id) {
            None => Err(ServiceError::NotFound),
            Some(i) => {
                let ghost before = self@.deliveries;
                assert(before[i as int] == self.deliveries@[i as int]@);
                let _ = self.deliveries[i].force_status(name, now);
                let copy = self.deliveries[i].duplicate();
                assert(self@.deliveries =~= before.update(i as int, copy@));
                Ok(copy)
            },
        }
    }

    /// Completes the delivery `id` at the time `now`.
    pub fn complete_delivery_at(
        &mut self,
        id: &str,
        images: Vec<String>,
        signature_name: Option<String>,
        comments: Option<String>,
        now: i64,
    ) -> (r: Result<DeliveryRequest, ServiceError>)
        ensures
            (final(self)@, delivery_view(r)) == market_complete(
                old(self)@,
                id@,
                images.deep_view(),
                signature_name.deep_view(),
                comments.deep_view(),
                now,
            ),
            market_well_formed(old(self)@) ==> market_well_formed(final(self)@),
    {
        match self.find_delivery(id) {
            None => Err(ServiceError::NotFound),
            Some(i) => {
                let ghost before = self@.deliveries;
                assert(before[i as int] == self.deliveries@[i as int]@);
                match self.deliveries[i].complete(images, signature_name, comments, now) {
                    Ok(_) => {
                        let copy = self.deliveries[i].duplicate();
                        assert(self@.deliveries =~= before.update(i as int, copy@));
                        Ok(copy)
                    },
                    Err(e) => {
                        assert(self@.deliveries =~= before);
                        Err(ServiceError::Invalid(e))
                    },
                }
            },
        }
    }

    /// Edits the delivery `id`.
    pub fn update_delivery(&mut self, id: &str, patch: DeliveryPatch, measured_meters: u64) -> (r:
        Result<DeliveryRequest, ServiceError>)
        ensures
            (final(self)@, delivery_view(r)) == market_update(
                old(self)@,
                id@,
                patch@,
                measured_meters,
            ),
            market_well_formed(old(self)@) ==> market_well_formed(final(self)@),
    {
        match self.find_delivery(id) {
            None => Err(ServiceError::NotFound),
            Some(i) => {
                let ghost before = self@.deliveries;
                assert(before[i as int] == self.deliveries@[i as int]@);
                match self.deliveries[i].update(patch, measured_meters) {
                    Ok(_) => {
                        let copy = self.deliveries[i].duplicate();
                        assert(self@.deliveries =~= before.update(i as int, copy@));
                        Ok(copy)
                    },
                    Err(e) => {
                        assert(self@.deliveries =~= before);
                        Err(ServiceError::Invalid(e))
                    },
                }
            },
        }
    }

    /// Withdraws the delivery `id`.
    pub fn delete_delivery(&mut self, id: &str) -> (r: Result<DeliveryRequest, ServiceError>)
        ensures
            (final(self)@, delivery_view(r)) == market_delete(old(self)@, id@),
            market_well_formed(old(self)@) ==> market_well_formed(final(self)@),
    {
        match self.find_delivery(id) {
            None => Err(ServiceError::NotFound),
            Some(i) => {
                let ghost before = self@.deliveries;
                assert(before[i as int] == self.deliveries@[i as int]@);
                match self.deliveries[i].expire() {
                    Ok(_) => {
                        let copy = self.deliveries[i].duplicate();
                        assert(self@.deliveries =~= before.update(i as int, copy@));
                        Ok(copy)
                    },
                    Err(e) => {
                        assert(self@.deliveries =~= before);
                        Err(ServiceError::Invalid(e))
                    },
                }
            },
        }
    }

    /// Pays the courier of the confirmed delivery `delivery`.
    fn pay_for_confirmation(&mut self, delivery: &DeliveryRequest, rating: Option<u32>)
        ensures
            final(self)@.users == users_after_confirmation(old(self)@.users, delivery@, rating),
            final(self)@.deliveries == old(self)@.deliveries,
            market_well_formed(old(self)@) ==> market_well_formed(final(self)@),
    {
        match delivery.accepted_courier() {
            None => {},
            Some(courier) => {
                let mut profile = self.get_user(courier.as_str());
                if profile.can_credit_confirmation(delivery.offer_amount) {
                    profile.credit_confirmation(delivery.offer_amount, rating);
                    self.put_user(profile);
                }
            },
        }
    }

    /// Pays the courier of the cancelled delivery `delivery`.
    fn pay_for_cancellation(&mut self, delivery: &DeliveryRequest)
        ensures
            final(self)@.users == users_after_cancellation(old(self)@.users, delivery@),
            final(self)@.deliveries == old(self)@.deliveries,
            market_well_formed(old(self)@) ==> market_well_formed(final(self)@),
    {
        match delivery.accepted_courier() {
            None => {},
            Some(courier) => {
                let mut profile = self.get_user(courier.as_str());
                if profile.can_credit_cancellation(delivery.offer_amount) {
                    profile.credit_cancellation(delivery.offer_amount);
                    self.put_user(profile);
                }
            },
        }
    }

    /// Confirms the delivery `id` and pays its courier.
    pub fn confirm_delivery_at(
        &mut self,
        id: &str,
        rating: Option<u32>,
        feedback: Option<String>,
        now: i64,
    ) -> (r: Result<DeliveryRequest, ServiceError>)
        ensures
            (final(self)@, delivery_view(r)) == market_confirm(
                old(self)@,
                id@,
                rating,
                feedback.deep_view(),
            ),
            market_well_formed(old(self)@) ==> market_well_formed(final(self)@),
    {
        match self.find_delivery(id) {
            None => Err(ServiceError::NotFound),
            Some(i) => {
                let ghost before = self@.deliveries;
                assert(before[i as int] == self.deliveries@[i as int]@);
                let _ = self.deliveries[i].confirm(rating, feedback, now);
                let copy = self.deliveries[i].duplicate();
                assert(self@.deliveries =~= before.update(i as int, copy@));
                self.pay_for_confirmation(&copy, rating);
                Ok(copy)
            },
        }
    }

    /// Cancels the delivery `id` and pays its courier.
    pub fn cancel_delivery(&mut self, id: &str) -> (r: Result<DeliveryRequest, ServiceError>)
        ensures
            (final(self)@, delivery_view(r)) == market_cancel(old(self)@, id@),
            market_well_formed(old(self)@) ==> market_well_formed(final(self)@),
    {
        match self.find_delivery(id) {
            None => Err(ServiceError::NotFound),
            Some(i) => {
                let ghost before = self@.deliveries;
                assert(before[i as int] == self.deliveries@[i as int]@);
                match self.deliveries[i].cancel() {
                    Ok(_) => {
                        let copy = self.deliveries[i].duplicate();
                        assert(self@.deliveries =~= before.update(i as int, copy@));
                        self.pay_for_cancellation(&copy);
                        Ok(copy)
                    },
                    Err(e) => {
                        assert(self@.deliveries =~= before);
                        Err(ServiceError::Invalid(e))
                    },
                }
            },
        }
    }
}

/// The first place depends on where the test holds, and on nothing else.
pub proof fn lemma_first_place_agrees<A>(a: Seq<A>, b: Seq<A>, wanted: spec_fn(A) -> bool)
    requires
        a.len() == b.len(),
        forall|j: int| 0 <= j < a.len() ==> wanted(#[trigger] a[j]) == wanted(b[j]),
    ensures
        first_place(a, wanted) == first_place(b, wanted),
    decreases a.len(),
{
    if a.len() > 0 {
        assert forall|j: int| 0 <= j < a.len() - 1 implies wanted(#[trigger] a.drop_last()[j])
            == wanted(b.drop_last()[j]) by {
            assert(a.drop_last()[j] == a[j]);
            assert(b.drop_last()[j] == b[j]);
        }
        lemma_first_place_agrees(a.drop_last(), b.drop_last(), wanted);
        assert(wanted(a[a.len() - 1]) == wanted(b[a.len() - 1]));
    }
}

/// After a profile was put into the store, the store gives that profile
/// for its user and the profile it gave before for every other user.
pub proof fn lemma_with_profile(users: Seq<ProfileView>, p: ProfileView, npub: Seq<char>)
    ensures
        profile_in(with_profile(users, p), npub) == if npub == p.npub {
            p
        } else {
            profile_in(users, npub)
        },
{
    lemma_first_place(users, user_named(p.npub));
    lemma_first_place(users, user_named(npub));
    let after = with_profile(users, p);
    lemma_first_place(after, user_named(npub));
    match first_place(users, user_named(p.npub)) {
        Some(k) => {
            assert((user_named(p.npub))(users[k]));
            assert forall|j: int| 0 <= j < users.len() implies (user_named(npub))(
                #[trigger] users[j],
            ) == (user_named(npub))(after[j]) by {}
            lemma_first_place_agrees(users, after, user_named(npub));
            if npub == p.npub {
                assert(first_place(after, user_named(npub)) == Some(k));
            } else {
                if first_place(users, user_named(npub)) is Some {
                    let i = first_place(users, user_named(npub))->Some_0;
                    assert((user_named(npub))(users[i]));
                }
            }
        },
        None => {
            assert(after.drop_last() =~= users);
            assert(after.last() == p);
            if npub != p.npub && first_place(users, user_named(npub)) is Some {
                let i = first_place(users, user_named(npub))->Some_0;
                assert(after[i] == users[i]);
            }
        },
    }
}

/// Confirmation pays the courier and nobody else: where the confirmed
/// delivery has an accepted courier whose counters have room, the
/// courier's profile counts exactly one delivery more, has earned exactly
/// the offer more, and keeps its reputation within five stars where it was
/// within them and the rating is; every other profile is as it was.
pub proof fn lemma_confirmation_pays_the_courier(
    users: Seq<ProfileView>,
    d: DeliveryView,
    rating: Option<u32>,
    other: Seq<char>,
)
    requires
        accepted_courier_spec(d) is Some,
        profile_in(users, accepted_courier_spec(d)->Some_0).completed_deliveries < u32::MAX,
        profile_in(users, accepted_courier_spec(d)->Some_0).total_earnings + d.offer_amount
            <= u64::MAX,
    ensures
        ({
            let courier = accepted_courier_spec(d)->Some_0;
            let before = profile_in(users, courier);
            let after = profile_in(users_after_confirmation(users, d, rating), courier);
            &&& after.completed_deliveries == before.completed_deliveries + 1
            &&& after.total_earnings == before.total_earnings + d.offer_amount
            &&& rating is None ==> after.reputation == before.reputation
            &&& before.reputation <= crate::model::MAX_REPUTATION && (rating matches Some(stars)
                ==> stars <= crate::model::MAX_REPUTATION) ==> after.reputation
                <= crate::model::MAX_REPUTATION
            &&& other != courier ==> profile_in(users_after_confirmation(users, d, rating), other)
                == profile_in(users, other)
        }),
{
    let courier = accepted_courier_spec(d)->Some_0;
    let before = profile_in(users, courier);
    let credited = profile_after_confirmation(before, d.offer_amount, rating);
    lemma_first_place(users, user_named(courier));
    if first_place(users, user_named(courier)) is Some {
        let k = first_place(users, user_named(courier))->Some_0;
        assert((user_named(courier))(users[k]));
    }
    assert(credited.npub == courier);
    lemma_with_profile(users, credited, courier);
    lemma_with_profile(users, credited, other);
    if rating is Some {
        crate::reputation::lemma_averaged_reputation_bounds(
            before.reputation,
            before.completed_deliveries,
            rating->Some_0,
        );
    }
}

/// Cancellation pays the courier the offer and touches nothing else: the
/// count of completed deliveries and the reputation of the courier stay,
/// and so does every other profile.
pub proof fn lemma_cancellation_pays_the_courier(
    users: Seq<ProfileView>,
    d: DeliveryView,
    other: Seq<char>,
)
    requires
        accepted_courier_spec(d) is Some,
        profile_in(users, accepted_courier_spec(d)->Some_0).total_earnings + d.offer_amount
            <= u64::MAX,
    ensures
        ({
            let courier = accepted_courier_spec(d)->Some_0;
            let before = profile_in(users, courier);
            let after = profile_in(users_after_cancellation(users, d), courier);
            &&& after.total_earnings == before.total_earnings + d.offer_amount
            &&& after.completed_deliveries == before.completed_deliveries
            &&& after.reputation == before.reputation
            &&& other != courier ==> profile_in(users_after_cancellation(users, d), other)
                == profile_in(users, other)
        }),
{
    let courier = accepted_courier_spec(d)->Some_0;
    let before = profile_in(users, courier);
    let credited = profile_after_cancellation(before, d.offer_amount);
    lemma_first_place(users, user_named(courier));
    if first_place(users, user_named(courier)) is Some {
        let k = first_place(users, user_named(courier))->Some_0;
        assert((user_named(courier))(users[k]));
    }
    assert(credited.npub == courier);
    lemma_with_profile(users, credited, courier);
    lemma_with_profile(users, credited, other);
}

} // verus!
