use delivery_core::machine::{DeliveryPatch, NewDelivery, ValidationError};
use delivery_core::memory::Marketplace;
use delivery_core::model::{Location, PackageInfo, UserProfile};
use delivery_core::service::ServiceError;
use delivery_core::status::DeliveryStatus;

fn mm_request(sender: &str) -> NewDelivery {
    NewDelivery {
        pickup: Location { address: "a".to_string(), coordinates: None, instructions: None },
        dropoff: Location { address: "b".to_string(), coordinates: None, instructions: None },
        packages: vec![PackageInfo {
            size: "small".to_string(),
            weight: None,
            description: "Letter".to_string(),
            fragile: false,
            requires_signature: false,
        }],
        offer_amount: 25000,
        insurance_amount: None,
        time_window: "today".to_string(),
        sender: sender.to_string(),
    }
}

fn mm_courier(npub: &str) -> UserProfile {
    UserProfile {
        npub: npub.to_string(),
        display_name: None,
        reputation: 4000,
        completed_deliveries: 3,
        total_earnings: 1000,
        verified_identity: false,
        lightning_address: None,
    }
}

fn mm_market_with_two_bids() -> Marketplace {
    let mut m = Marketplace::new();
    m.put_user(mm_courier("npub1ann"));
    m.put_user(mm_courier("npub1bob"));
    m.create_delivery_at(mm_request("npub1s"), 1, 1000, 0).expect("in range");
    m.place_bid_at("delivery_1", "npub1ann", 10000, "1h".to_string(), None, 11, 1001)
        .expect("positive");
    m.place_bid_at("delivery_1", "npub1bob", 8000, "2h".to_string(), None, 12, 1002)
        .expect("positive");
    m
}

#[test]
fn store_starts_empty() {
    let m = Marketplace::new();
    assert!(m.deliveries.is_empty());
    assert!(m.users.is_empty());
    assert_eq!(m.get_delivery("x").unwrap_err(), ServiceError::NotFound);
    assert!(m.get_deliveries(None).is_empty());
    assert_eq!(m.find_delivery("x"), None);
    assert_eq!(m.find_user("x"), None);
}

#[test]
fn store_holds_each_delivery_once() {
    let mut m = Marketplace::new();
    let a = m.create_delivery_at(mm_request("first"), 7, 100, 0).expect("in range");
    assert_eq!(a.id, "delivery_7");
    m.create_delivery_at(mm_request("other"), 8, 100, 0).expect("in range");
    let again = m.create_delivery_at(mm_request("second"), 7, 200, 0).expect("in range");
    assert_eq!(again.id, "delivery_7");
    assert_eq!(m.deliveries.len(), 2);
    assert_eq!(m.find_delivery("delivery_7"), Some(0));
    assert_eq!(m.find_delivery("delivery_8"), Some(1));
    assert_eq!(m.get_delivery("delivery_7").expect("held").sender, "second");
    assert!(m.create_delivery_at(mm_request("late"), 9, i64::MAX, 0).is_none());
    assert_eq!(m.deliveries.len(), 2);
}

#[test]
fn store_places_bids_with_the_couriers_snapshot() {
    let m = mm_market_with_two_bids();
    let d = m.get_delivery("delivery_1").expect("held");
    assert_eq!(d.bids.len(), 2);
    assert_eq!(d.bids[0].id, "bid_11");
    assert_eq!(d.bids[0].courier, "npub1ann");
    assert_eq!(d.bids[0].reputation, 4000);
    assert_eq!(d.bids[0].completed_deliveries, 3);
    assert_eq!(d.bids[1].created_at, 1002);
    let mut m = m;
    let b = m
        .place_bid_at("delivery_1", "npub1new", 5, "3h".to_string(), None, 13, 1003)
        .expect("positive");
    assert_eq!(b.reputation, 4500);
    assert_eq!(b.completed_deliveries, 0);
    assert_eq!(
        m.place_bid_at("delivery_1", "npub1new", 0, "3h".to_string(), None, 14, 1004).unwrap_err(),
        ServiceError::Invalid(ValidationError::InvalidBidAmount)
    );
    assert_eq!(
        m.place_bid_at("nowhere", "npub1new", 5, "3h".to_string(), None, 14, 1004).unwrap_err(),
        ServiceError::NotFound
    );
    assert_eq!(m.get_delivery("delivery_1").expect("held").bids.len(), 3);
}

#[test]
fn store_accepts_and_refuses() {
    let mut m = mm_market_with_two_bids();
    let before = format!("{:?}", m);
    assert_eq!(
        m.accept_bid_at("delivery_1", 2, 5).unwrap_err(),
        ServiceError::Invalid(ValidationError::InvalidBidIndex)
    );
    assert_eq!(m.accept_bid_at("nowhere", 0, 5).unwrap_err(), ServiceError::NotFound);
    assert_eq!(format!("{:?}", m), before);
    let d = m.accept_bid_at("delivery_1", 1, 5).expect("open with two bids");
    assert_eq!(d.status, DeliveryStatus::Accepted);
    assert_eq!(d.offer_amount, 8000);
    assert_eq!(d.accepted_bid, Some("bid_12".to_string()));
    assert_eq!(m.get_delivery("delivery_1").expect("held").offer_amount, 8000);
}

#[test]
fn store_confirmation_pays_the_courier_and_nobody_else() {
    let mut m = mm_market_with_two_bids();
    m.accept_bid_at("delivery_1", 1, 5).expect("open");
    let d = m.confirm_delivery_at("delivery_1", Some(5000), Some("good".to_string()), 9).expect("held");
    assert_eq!(d.status, DeliveryStatus::Confirmed);
    assert_eq!(d.sender_rating, Some(5000));
    let bob = m.get_user("npub1bob");
    assert_eq!(bob.completed_deliveries, 4);
    assert_eq!(bob.total_earnings, 9000);
    assert_eq!(bob.reputation, 4250);
    assert!(bob.reputation <= 5000);
    let ann = m.get_user("npub1ann");
    assert_eq!(ann.completed_deliveries, 3);
    assert_eq!(ann.total_earnings, 1000);
    assert_eq!(ann.reputation, 4000);
    assert_eq!(m.users.len(), 2);
}

#[test]
fn store_confirmation_without_courier_pays_nobody() {
    let mut m = mm_market_with_two_bids();
    let before = format!("{:?}", m.users);
    m.confirm_delivery_at("delivery_1", Some(5000), None, 9).expect("held");
    assert_eq!(format!("{:?}", m.users), before);
    assert_eq!(m.confirm_delivery_at("nowhere", None, None, 9).unwrap_err(), ServiceError::NotFound);
}

#[test]
fn store_confirmation_gives_an_unseen_courier_a_profile() {
    let mut m = Marketplace::new();
    m.create_delivery_at(mm_request("npub1s"), 1, 1000, 0).expect("in range");
    m.place_bid_at("delivery_1", "npub1new", 700, "1h".to_string(), None, 2, 1001).expect("ok");
    m.accept_bid_at("delivery_1", 0, 3).expect("open");
    m.confirm_delivery_at("delivery_1", Some(3000), None, 4).expect("held");
    assert_eq!(m.users.len(), 1);
    let p = m.get_user("npub1new");
    assert_eq!(p.completed_deliveries, 1);
    assert_eq!(p.total_earnings, 700);
    assert_eq!(p.reputation, 3000);
}

#[test]
fn store_cancellation_pays_the_offer_only() {
    let mut m = mm_market_with_two_bids();
    assert_eq!(
        m.cancel_delivery("delivery_1").unwrap_err(),
        ServiceError::Invalid(ValidationError::CancelNotAccepted)
    );
    m.accept_bid_at("delivery_1", 0, 5).expect("open");
    let d = m.cancel_delivery("delivery_1").expect("accepted");
    assert_eq!(d.status, DeliveryStatus::Expired);
    let ann = m.get_user("npub1ann");
    assert_eq!(ann.total_earnings, 11000);
    assert_eq!(ann.completed_deliveries, 3);
    assert_eq!(ann.reputation, 4000);
    assert_eq!(m.get_user("npub1bob").total_earnings, 1000);
    assert_eq!(
        m.cancel_delivery("delivery_1").unwrap_err(),
        ServiceError::Invalid(ValidationError::CancelNotAccepted)
    );
    assert_eq!(m.get_user("npub1ann").total_earnings, 11000);
    m.update_delivery_status_at("delivery_1", "completed", 6).expect("held");
    assert_eq!(
        m.cancel_delivery("delivery_1").unwrap_err(),
        ServiceError::Invalid(ValidationError::CancelNotAccepted)
    );
}

#[test]
fn store_full_counters_leave_the_profile() {
    let mut m = mm_market_with_two_bids();
    let mut rich = mm_courier("npub1bob");
    rich.total_earnings = u64::MAX;
    m.put_user(rich);
    m.accept_bid_at("delivery_1", 1, 5).expect("open");
    m.confirm_delivery_at("delivery_1", Some(5000), None, 9).expect("held");
    let bob = m.get_user("npub1bob");
    assert_eq!(bob.total_earnings, u64::MAX);
    assert_eq!(bob.completed_deliveries, 3);
    assert_eq!(bob.reputation, 4000);
}

#[test]
fn store_edits_completes_and_withdraws() {
    let mut m = mm_market_with_two_bids();
    let patch = DeliveryPatch {
        pickup: None,
        dropoff: None,
        packages: None,
        offer_amount: Some(30000),
        insurance_amount: Some(1),
        time_window: None,
    };
    let d = m.update_delivery("delivery_1", patch.clone(), 0).expect("open");
    assert_eq!(d.offer_amount, 30000);
    assert_eq!(d.insurance_amount, Some(1));
    assert_eq!(m.update_delivery("nowhere", patch.clone(), 0).unwrap_err(), ServiceError::NotFound);
    assert_eq!(
        m.complete_delivery_at("delivery_1", vec![], None, None, 5).unwrap_err(),
        ServiceError::Invalid(ValidationError::CompleteNotAccepted)
    );
    let d = m.update_delivery_status_at("delivery_1", "In_Transit", 6).expect("held");
    assert_eq!(d.status, DeliveryStatus::InTransit);
    assert_eq!(
        m.update_delivery("delivery_1", patch, 0).unwrap_err(),
        ServiceError::Invalid(ValidationError::UpdateNotOpen)
    );
    assert_eq!(
        m.delete_delivery("delivery_1").unwrap_err(),
        ServiceError::Invalid(ValidationError::DeleteNotOpen)
    );
    let d = m.complete_delivery_at("delivery_1", vec!["i".to_string()], None, None, 7).expect("moving");
    assert_eq!(d.status, DeliveryStatus::Completed);
    assert_eq!(d.completed_at, Some(7));
    m.create_delivery_at(mm_request("npub1s"), 2, 1000, 0).expect("in range");
    assert_eq!(m.delete_delivery("delivery_2").expect("open").status, DeliveryStatus::Expired);
    assert_eq!(m.get_delivery("delivery_2").expect("held").status, DeliveryStatus::Expired);
    assert_eq!(m.get_deliveries(Some("expired")).len(), 1);
    assert_eq!(m.get_deliveries(Some("COMPLETED")).len(), 1);
    assert_eq!(m.get_deliveries(None).len(), 2);
    assert!(m.get_deliveries(Some("open")).is_empty());
}

#[test]
fn store_keeps_one_profile_for_each_user() {
    let mut m = Marketplace::new();
    let p = m.update_user("npub1zed", &Some("Zed".to_string()), &None);
    assert_eq!(p.display_name, Some("Zed".to_string()));
    assert_eq!(p.reputation, 4500);
    let p = m.update_user("npub1zed", &None, &Some("z@ln".to_string()));
    assert_eq!(p.display_name, Some("Zed".to_string()));
    assert_eq!(p.lightning_address, Some("z@ln".to_string()));
    assert_eq!(m.users.len(), 1);
    assert_eq!(m.find_user("npub1zed"), Some(0));
    let unseen = m.get_user("npub1other");
    assert_eq!(unseen.npub, "npub1other");
    assert_eq!(unseen.total_earnings, 0);
    assert_eq!(m.users.len(), 1);
}
