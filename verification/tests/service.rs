use delivery_core::clock::{
    accept_bid, complete_delivery, confirm_delivery, create_delivery, place_bid,
    update_delivery_status,
};
use delivery_core::events::{LogEvent, Payload};
use delivery_core::machine::{create, DeliveryPatch, NewDelivery, ValidationError};
use delivery_core::model::{DeliveryBid, DeliveryRequest, Location, PackageInfo, UserProfile};
use delivery_core::service::{
    accept_bid_at, cancel_delivery, complete_delivery_at, confirm_delivery_at,
    create_delivery_at, delete_delivery, get_deliveries, get_delivery, get_user, place_bid_at,
    settle_cancellation, settle_confirmation, update_delivery, update_delivery_status_at,
    update_user, ServiceError, Settlement,
};
use delivery_core::status::DeliveryStatus;

fn sv_request() -> NewDelivery {
    NewDelivery {
        pickup: Location { address: "a".to_string(), coordinates: None, instructions: None },
        dropoff: Location { address: "b".to_string(), coordinates: None, instructions: None },
        packages: vec![PackageInfo {
            size: "small".to_string(),
            weight: None,
            description: "Letter".to_string(),
            fragile: true,
            requires_signature: true,
        }],
        offer_amount: 25000,
        insurance_amount: None,
        time_window: "today".to_string(),
        sender: "npub1sender".to_string(),
    }
}

fn sv_bid(id: &str, courier: &str, amount: u64, created_at: i64) -> DeliveryBid {
    DeliveryBid {
        id: id.to_string(),
        courier: courier.to_string(),
        amount,
        estimated_time: "1 hour".to_string(),
        reputation: 4500,
        completed_deliveries: 0,
        message: None,
        created_at,
    }
}

fn sv_delivery() -> DeliveryRequest {
    let mut d = create(sv_request(), "delivery_1".to_string(), 1000, 0);
    d.place_bid(sv_bid("bid_a", "npub1ann", 10000, 1001)).expect("positive");
    d.place_bid(sv_bid("bid_b", "npub1bob", 8000, 1002)).expect("positive");
    d
}

fn sv_profile_event(id: &str, at: i64, npub: &str, earnings: u64, completed: u32) -> LogEvent {
    LogEvent {
        id: id.to_string(),
        kind: 35009,
        created_at: at,
        tags: vec![vec!["d".to_string(), npub.to_string()]],
        payload: Payload::Profile(UserProfile {
            npub: npub.to_string(),
            display_name: None,
            reputation: 4000,
            completed_deliveries: completed,
            total_earnings: earnings,
            verified_identity: false,
            lightning_address: None,
        }),
    }
}

fn sv_root(id: &str, at: i64, d: DeliveryRequest) -> LogEvent {
    LogEvent {
        id: id.to_string(),
        kind: 35000,
        created_at: at,
        tags: vec![vec!["d".to_string(), d.id.clone()]],
        payload: Payload::Delivery(d),
    }
}

#[test]
fn unknown_delivery_is_not_found() {
    assert_eq!(get_delivery(&Vec::new(), "delivery_1").unwrap_err(), ServiceError::NotFound);
    assert_eq!(accept_bid_at(None, 0, 1).unwrap_err(), ServiceError::NotFound);
    assert_eq!(update_delivery_status_at(None, "accepted", 1).unwrap_err(), ServiceError::NotFound);
    assert_eq!(confirm_delivery_at(None, None, None, 1).unwrap_err(), ServiceError::NotFound);
    assert_eq!(
        complete_delivery_at(None, vec![], None, None, 1).unwrap_err(),
        ServiceError::NotFound
    );
    let patch = DeliveryPatch {
        pickup: None,
        dropoff: None,
        packages: None,
        offer_amount: None,
        insurance_amount: None,
        time_window: None,
    };
    assert_eq!(update_delivery(None, patch, 0).unwrap_err(), ServiceError::NotFound);
    assert_eq!(delete_delivery(None).unwrap_err(), ServiceError::NotFound);
    assert_eq!(cancel_delivery(None).unwrap_err(), ServiceError::NotFound);
    let courier = UserProfile::unseen("npub1c");
    assert_eq!(
        place_bid_at(None, &courier, 5, "1h".to_string(), None, 1, 1).unwrap_err(),
        ServiceError::NotFound
    );
}

#[test]
fn known_delivery_is_found() {
    let events = vec![sv_root("e1", 5, sv_delivery())];
    let d = get_delivery(&events, "delivery_1").expect("found");
    assert_eq!(d.id, "delivery_1");
    assert_eq!(d.offer_amount, 25000);
}

#[test]
fn deliveries_are_listed_by_status() {
    let mut accepted = sv_delivery();
    accepted.id = "delivery_2".to_string();
    accepted.status = DeliveryStatus::InTransit;
    let events = vec![sv_root("e1", 5, sv_delivery()), sv_root("e2", 6, accepted)];
    assert_eq!(get_deliveries(&events, None).len(), 2);
    let open = get_deliveries(&events, Some("OPEN"));
    assert_eq!(open.len(), 1);
    assert_eq!(open[0].id, "delivery_1");
    let moving = get_deliveries(&events, Some("intransit"));
    assert_eq!(moving.len(), 1);
    assert_eq!(moving[0].id, "delivery_2");
    assert!(get_deliveries(&events, Some("in_transit")).is_empty());
    assert!(get_deliveries(&events, Some("confirmed")).is_empty());
}

#[test]
fn creation_at_a_given_time() {
    let d = create_delivery_at(sv_request(), 1_700_000_000_123, 1_700_000_000, 0).expect("in range");
    assert_eq!(d.id, "delivery_1700000000123");
    assert_eq!(d.created_at, 1_700_000_000);
    assert_eq!(d.expires_at, Some(1_700_604_800));
    assert!(create_delivery_at(sv_request(), 0, i64::MAX, 0).is_none());
}

#[test]
fn creation_reads_the_clock() {
    let d = create_delivery(sv_request(), 0).expect("the clock shows a time of this age");
    assert!(d.id.starts_with("delivery_"));
    assert!(d.created_at > 1_600_000_000);
    assert_eq!(d.expires_at, Some(d.created_at + 604_800));
    let millis: i64 = d.id["delivery_".len()..].parse().expect("a number of milliseconds");
    assert!((millis / 1000 - d.created_at).abs() <= 1);
    assert_eq!(d.status, DeliveryStatus::Open);
}

#[test]
fn bid_at_a_given_time() {
    let d = sv_delivery();
    let courier = UserProfile::unseen("npub1c");
    let b = place_bid_at(Some(&d), &courier, 7000, "1h".to_string(), None, 5_000, 5).expect("ok");
    assert_eq!(b.id, "bid_5000");
    assert_eq!(b.created_at, 5);
    assert_eq!(b.courier, "npub1c");
    assert_eq!(b.reputation, 4500);
    assert_eq!(
        place_bid_at(Some(&d), &courier, 0, "1h".to_string(), None, 5_000, 5).unwrap_err(),
        ServiceError::Invalid(ValidationError::InvalidBidAmount)
    );
}

#[test]
fn bid_reads_the_clock() {
    let d = sv_delivery();
    let courier = UserProfile::unseen("npub1c");
    let b = place_bid(Some(&d), &courier, 7000, "1h".to_string(), None).expect("ok");
    assert!(b.id.starts_with("bid_"));
    assert!(b.created_at > 1_600_000_000);
}

#[test]
fn accept_through_the_service() {
    let t = accept_bid_at(Some(sv_delivery()), 1, 77).expect("open with two bids");
    assert_eq!(t.delivery.status, DeliveryStatus::Accepted);
    assert_eq!(t.delivery.offer_amount, 8000);
    assert_eq!(t.delivery.accepted_bid, Some("bid_b".to_string()));
    assert_eq!(t.update.accepted_bid, Some("bid_b".to_string()));
    assert_eq!(t.update.timestamp, 77);
    assert_eq!(
        accept_bid_at(Some(sv_delivery()), 2, 77).unwrap_err(),
        ServiceError::Invalid(ValidationError::InvalidBidIndex)
    );
    let t = accept_bid(Some(sv_delivery()), 0).expect("open with two bids");
    assert_eq!(t.delivery.offer_amount, 10000);
    assert!(t.update.timestamp > 1_600_000_000);
}

#[test]
fn status_through_the_service() {
    let t = update_delivery_status_at(Some(sv_delivery()), "in_transit", 9).expect("found");
    assert_eq!(t.delivery.status, DeliveryStatus::InTransit);
    assert_eq!(t.update.status, DeliveryStatus::InTransit);
    assert_eq!(t.update.timestamp, 9);
    let t = update_delivery_status(Some(sv_delivery()), "bogus").expect("found");
    assert_eq!(t.delivery.status, DeliveryStatus::Open);
    assert_eq!(t.update.status, DeliveryStatus::Open);
    assert!(t.update.timestamp > 1_600_000_000);
}

#[test]
fn complete_through_the_service() {
    let accepted = accept_bid_at(Some(sv_delivery()), 0, 1).expect("open").delivery;
    assert_eq!(
        complete_delivery_at(Some(accepted.clone()), vec![], None, None, 5).unwrap_err(),
        ServiceError::Invalid(ValidationError::SignatureRequired)
    );
    assert_eq!(
        complete_delivery_at(Some(sv_delivery()), vec![], Some("Ann".to_string()), None, 5)
            .unwrap_err(),
        ServiceError::Invalid(ValidationError::CompleteNotAccepted)
    );
    let t = complete_delivery_at(Some(accepted.clone()), vec![], Some("Ann".to_string()), None, 5)
        .expect("signed");
    assert_eq!(t.delivery.status, DeliveryStatus::Completed);
    assert_eq!(t.delivery.completed_at, Some(5));
    assert!(t.delivery.proof_of_delivery.is_some());
    assert_eq!(t.update.completed_at, Some(5));
    let t = complete_delivery(Some(accepted), vec![], Some("Ann".to_string()), None).expect("signed");
    let at = t.delivery.completed_at.expect("set");
    assert!(at > 1_600_000_000);
    assert_eq!(t.update.timestamp, at);
    assert_eq!(t.delivery.proof_of_delivery.expect("set").timestamp, at);
}

#[test]
fn confirm_through_the_service() {
    let t = confirm_delivery_at(Some(sv_delivery()), Some(4000), Some("ok".to_string()), 8)
        .expect("found");
    assert_eq!(t.delivery.status, DeliveryStatus::Confirmed);
    assert_eq!(t.delivery.sender_rating, Some(4000));
    assert_eq!(t.update.sender_feedback, Some("ok".to_string()));
    assert_eq!(t.update.timestamp, 8);
    let t = confirm_delivery(Some(sv_delivery()), None, None).expect("found");
    assert_eq!(t.delivery.status, DeliveryStatus::Confirmed);
    assert!(t.update.timestamp > 1_600_000_000);
}

#[test]
fn edit_withdraw_and_cancel_through_the_service() {
    let patch = DeliveryPatch {
        pickup: None,
        dropoff: None,
        packages: None,
        offer_amount: Some(1),
        insurance_amount: None,
        time_window: None,
    };
    let d = update_delivery(Some(sv_delivery()), patch.clone(), 0).expect("open");
    assert_eq!(d.offer_amount, 1);
    let accepted = accept_bid_at(Some(sv_delivery()), 0, 1).expect("open").delivery;
    assert_eq!(
        update_delivery(Some(accepted.clone()), patch, 0).unwrap_err(),
        ServiceError::Invalid(ValidationError::UpdateNotOpen)
    );
    assert_eq!(delete_delivery(Some(sv_delivery())).expect("open").status, DeliveryStatus::Expired);
    assert_eq!(
        delete_delivery(Some(accepted.clone())).unwrap_err(),
        ServiceError::Invalid(ValidationError::DeleteNotOpen)
    );
    assert_eq!(cancel_delivery(Some(accepted)).expect("accepted").status, DeliveryStatus::Expired);
    assert_eq!(
        cancel_delivery(Some(sv_delivery())).unwrap_err(),
        ServiceError::Invalid(ValidationError::CancelNotAccepted)
    );
    let mut completed = sv_delivery();
    completed.status = DeliveryStatus::Completed;
    assert_eq!(
        cancel_delivery(Some(completed)).unwrap_err(),
        ServiceError::Invalid(ValidationError::CancelNotAccepted)
    );
}

#[test]
fn confirmation_pays_the_accepted_courier() {
    let accepted = accept_bid_at(Some(sv_delivery()), 1, 1).expect("open").delivery;
    let profiles = vec![
        sv_profile_event("prof_a", 10, "npub1bob", 1000, 3),
        sv_profile_event("prof_b", 10, "npub1ann", 9, 9),
    ];
    match settle_confirmation(&accepted, &profiles, Some(5000)) {
        Settlement::Credited(p) => {
            assert_eq!(p.npub, "npub1bob");
            assert_eq!(p.completed_deliveries, 4);
            assert_eq!(p.total_earnings, 1000 + 8000);
            assert_eq!(p.reputation, (4000 * 3 + 5000) / 4);
            assert!(p.reputation <= 5000);
        }
        other => panic!("the courier is paid, not {:?}", other),
    }
    match settle_confirmation(&accepted, &Vec::new(), None) {
        Settlement::Credited(p) => {
            assert_eq!(p.npub, "npub1bob");
            assert_eq!(p.completed_deliveries, 1);
            assert_eq!(p.total_earnings, 8000);
            assert_eq!(p.reputation, 4500);
        }
        other => panic!("the courier is paid, not {:?}", other),
    }
    assert!(matches!(settle_confirmation(&sv_delivery(), &profiles, Some(5000)), Settlement::NoCourier));
    let full = vec![sv_profile_event("prof_a", 10, "npub1bob", u64::MAX, 3)];
    assert!(matches!(settle_confirmation(&accepted, &full, None), Settlement::CounterFull));
}

#[test]
fn cancellation_pays_the_offer_only() {
    let accepted = accept_bid_at(Some(sv_delivery()), 1, 1).expect("open").delivery;
    let profiles = vec![sv_profile_event("prof_a", 10, "npub1bob", 1000, 3)];
    match settle_cancellation(&accepted, &profiles) {
        Settlement::Credited(p) => {
            assert_eq!(p.total_earnings, 9000);
            assert_eq!(p.completed_deliveries, 3);
            assert_eq!(p.reputation, 4000);
        }
        other => panic!("the courier is paid, not {:?}", other),
    }
    assert!(matches!(settle_cancellation(&sv_delivery(), &profiles), Settlement::NoCourier));
    let full = vec![sv_profile_event("prof_a", 10, "npub1bob", u64::MAX - 7999, 3)];
    assert!(matches!(settle_cancellation(&accepted, &full), Settlement::CounterFull));
}

#[test]
fn user_is_read_and_edited() {
    let profiles = vec![sv_profile_event("prof_a", 10, "npub1bob", 1000, 3)];
    assert_eq!(get_user(&profiles, "npub1bob").total_earnings, 1000);
    assert_eq!(get_user(&profiles, "npub1zed").reputation, 4500);
    let p = update_user(&profiles, "npub1bob", &Some("Bob".to_string()), &None);
    assert_eq!(p.display_name, Some("Bob".to_string()));
    assert_eq!(p.total_earnings, 1000);
    let p = update_user(&profiles, "npub1zed", &None, &Some("z@ln".to_string()));
    assert_eq!(p.npub, "npub1zed");
    assert_eq!(p.lightning_address, Some("z@ln".to_string()));
    assert_eq!(p.display_name, None);
}
