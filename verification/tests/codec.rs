use delivery_core::codec::{
    bid_event, bid_tags, delivery_event, delivery_tags, profile_event, profile_tags, status_event,
    status_tags, thousandths,
};
use delivery_core::events::{LogEvent, Payload};
use delivery_core::model::{DeliveryBid, DeliveryRequest, Location, UserProfile};
use delivery_core::reconstruct::reconstruct;
use delivery_core::status::DeliveryStatus;

fn cd_tag(name: &str, value: &str) -> Vec<String> {
    vec![name.to_string(), value.to_string()]
}

fn cd_delivery() -> DeliveryRequest {
    DeliveryRequest {
        id: "delivery_7".to_string(),
        sender: "npub1sender".to_string(),
        pickup: Location { address: "a".to_string(), coordinates: None, instructions: None },
        dropoff: Location { address: "b".to_string(), coordinates: None, instructions: None },
        packages: vec![],
        offer_amount: 25000,
        insurance_amount: None,
        time_window: "today".to_string(),
        expires_at: None,
        status: DeliveryStatus::InTransit,
        bids: vec![],
        accepted_bid: None,
        created_at: 1_700_000_000,
        distance_meters: None,
        proof_of_delivery: None,
        sender_feedback: None,
        sender_rating: None,
        completed_at: None,
    }
}

fn cd_bid() -> DeliveryBid {
    DeliveryBid {
        id: "bid_3".to_string(),
        courier: "npub1courier".to_string(),
        amount: 8000,
        estimated_time: "1 hour".to_string(),
        reputation: 4500,
        completed_deliveries: 2,
        message: None,
        created_at: 5,
    }
}

fn cd_profile(reputation: u32) -> UserProfile {
    UserProfile {
        npub: "npub1c".to_string(),
        display_name: None,
        reputation,
        completed_deliveries: 12,
        total_earnings: 0,
        verified_identity: false,
        lightning_address: None,
    }
}

#[test]
fn thousandths_are_written_as_decimal_numbers() {
    assert_eq!(thousandths(4500), "4.5");
    assert_eq!(thousandths(5000), "5");
    assert_eq!(thousandths(0), "0");
    assert_eq!(thousandths(4538), "4.538");
    assert_eq!(thousandths(4530), "4.53");
    assert_eq!(thousandths(50), "0.05");
    assert_eq!(thousandths(5), "0.005");
    assert_eq!(thousandths(1001), "1.001");
    assert_eq!(thousandths(12_300), "12.3");
}

#[test]
fn delivery_is_tagged_with_id_sender_status_amount_and_time() {
    assert_eq!(
        delivery_tags(&cd_delivery()),
        vec![
            cd_tag("d", "delivery_7"),
            cd_tag("sender", "npub1sender"),
            cd_tag("status", "intransit"),
            cd_tag("amount", "25000"),
            cd_tag("created_at", "1700000000"),
        ]
    );
    let draft = delivery_event(&cd_delivery());
    assert_eq!(draft.kind, 35000);
    assert_eq!(draft.tags, delivery_tags(&cd_delivery()));
}

#[test]
fn bid_is_tagged_with_its_delivery() {
    assert_eq!(
        bid_tags("delivery_7", &cd_bid()),
        vec![
            cd_tag("d", "bid_3"),
            cd_tag("delivery_id", "delivery_7"),
            cd_tag("courier", "npub1courier"),
            cd_tag("amount", "8000"),
        ]
    );
    let draft = bid_event("delivery_7", &cd_bid());
    assert_eq!(draft.kind, 35001);
    assert_eq!(draft.tags, bid_tags("delivery_7", &cd_bid()));
}

#[test]
fn status_is_announced_under_its_own_kind() {
    assert_eq!(
        status_tags("delivery_7", DeliveryStatus::Completed, 99),
        vec![
            cd_tag("delivery_id", "delivery_7"),
            cd_tag("status", "completed"),
            cd_tag("timestamp", "99"),
        ]
    );
    let draft = status_event("delivery_7", DeliveryStatus::Accepted, 1).expect("announced");
    assert_eq!(draft.kind, 35002);
    assert_eq!(status_event("d", DeliveryStatus::Open, 1).expect("announced").kind, 35003);
    assert_eq!(status_event("d", DeliveryStatus::InTransit, 1).expect("announced").kind, 35004);
    assert_eq!(status_event("d", DeliveryStatus::Completed, 1).expect("announced").kind, 35005);
    assert_eq!(status_event("d", DeliveryStatus::Confirmed, 1).expect("announced").kind, 35006);
    assert!(status_event("d", DeliveryStatus::Expired, 1).is_none());
    assert!(status_event("d", DeliveryStatus::Disputed, 1).is_none());
}

#[test]
fn profile_is_tagged_with_key_reputation_and_count() {
    assert_eq!(
        profile_tags(&cd_profile(4500)),
        vec![
            cd_tag("d", "npub1c"),
            cd_tag("reputation", "4.5"),
            cd_tag("completed_deliveries", "12"),
        ]
    );
    assert_eq!(profile_event(&cd_profile(5000)).kind, 35009);
}

#[test]
fn what_is_published_is_found_again() {
    let d = cd_delivery();
    let root = delivery_event(&d);
    let bid = bid_event(&d.id, &cd_bid());
    let events = vec![
        LogEvent {
            id: "e1".to_string(),
            kind: root.kind,
            created_at: 10,
            tags: root.tags,
            payload: Payload::Delivery(d.clone()),
        },
        LogEvent {
            id: "e2".to_string(),
            kind: bid.kind,
            created_at: 11,
            tags: bid.tags,
            payload: Payload::Bid(cd_bid()),
        },
    ];
    let found = reconstruct(&events, "delivery_7").expect("the snapshot is found");
    assert_eq!(found.id, "delivery_7");
    assert_eq!(found.bids.len(), 1);
    assert_eq!(found.bids[0].id, "bid_3");
}
