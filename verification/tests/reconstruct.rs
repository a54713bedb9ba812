use delivery_core::catalog::{latest_profile, reconstruct_all};
use delivery_core::events::{has_tag, record_kind, LogEvent, Payload, RecordKind};
use delivery_core::model::{
    DeliveryBid, DeliveryRequest, Location, PackageInfo, ProofOfDelivery, StatusUpdate,
    UserProfile,
};
use delivery_core::reconstruct::{apply_update, collect_updates, merge_bids, reconstruct};
use delivery_core::status::DeliveryStatus;

fn rc_place(address: &str) -> Location {
    Location { address: address.to_string(), coordinates: None, instructions: None }
}

fn rc_delivery(id: &str, status: DeliveryStatus) -> DeliveryRequest {
    DeliveryRequest {
        id: id.to_string(),
        sender: "npub1sender".to_string(),
        pickup: rc_place("123 Main St"),
        dropoff: rc_place("456 Oak Ave"),
        packages: vec![PackageInfo {
            size: "medium".to_string(),
            weight: Some(5000),
            description: "Box of books".to_string(),
            fragile: false,
            requires_signature: false,
        }],
        offer_amount: 25000,
        insurance_amount: Some(50000),
        time_window: "today".to_string(),
        expires_at: Some(1_000_000),
        status,
        bids: vec![],
        accepted_bid: None,
        created_at: 100,
        distance_meters: None,
        proof_of_delivery: None,
        sender_feedback: None,
        sender_rating: None,
        completed_at: None,
    }
}

fn rc_tags(name: &str, value: &str) -> Vec<Vec<String>> {
    vec![vec![name.to_string(), value.to_string()]]
}

fn rc_root(event_id: &str, created_at: i64, d: DeliveryRequest) -> LogEvent {
    LogEvent {
        id: event_id.to_string(),
        kind: 35000,
        created_at,
        tags: rc_tags("d", &d.id),
        payload: Payload::Delivery(d),
    }
}

fn rc_update(delivery_id: &str, status: DeliveryStatus, timestamp: i64) -> StatusUpdate {
    StatusUpdate {
        delivery_id: delivery_id.to_string(),
        status,
        timestamp,
        proof_of_delivery: None,
        completed_at: None,
        accepted_bid: None,
        sender_rating: None,
        sender_feedback: None,
    }
}

fn rc_update_event(event_id: &str, kind: u16, u: StatusUpdate) -> LogEvent {
    LogEvent {
        id: event_id.to_string(),
        kind,
        created_at: u.timestamp,
        tags: rc_tags("delivery_id", &u.delivery_id),
        payload: Payload::Update(u),
    }
}

fn rc_bid(id: &str, amount: u64, created_at: i64) -> DeliveryBid {
    DeliveryBid {
        id: id.to_string(),
        courier: format!("npub1courier_{}", id),
        amount,
        estimated_time: "1 hour".to_string(),
        reputation: 4500,
        completed_deliveries: 3,
        message: None,
        created_at,
    }
}

fn rc_bid_event(event_id: &str, delivery_id: &str, b: DeliveryBid) -> LogEvent {
    LogEvent {
        id: event_id.to_string(),
        kind: 35001,
        created_at: b.created_at,
        tags: rc_tags("delivery_id", delivery_id),
        payload: Payload::Bid(b),
    }
}

fn rc_show(d: &Option<DeliveryRequest>) -> String {
    format!("{:?}", d)
}

fn rc_overlay_scenario() -> Vec<LogEvent> {
    let mut a = rc_update("d1", DeliveryStatus::Accepted, 200);
    a.accepted_bid = Some("bid_1".to_string());
    let b = rc_update("d1", DeliveryStatus::InTransit, 300);
    vec![
        rc_root("e_root", 100, rc_delivery("d1", DeliveryStatus::Open)),
        rc_update_event("e_a", 35002, a),
        rc_update_event("e_b", 35004, b),
    ]
}

#[test]
fn overlay_keeps_field_that_later_update_omits() {
    let events = rc_overlay_scenario();
    let d = reconstruct(&events, "d1").expect("the log holds a root snapshot");
    assert_eq!(d.status, DeliveryStatus::InTransit);
    assert_eq!(d.accepted_bid, Some("bid_1".to_string()));
}

#[test]
fn overlay_is_applied_in_timestamp_order_whatever_the_arrival_order() {
    let mut events = rc_overlay_scenario();
    events.reverse();
    let d = reconstruct(&events, "d1").expect("the log holds a root snapshot");
    assert_eq!(d.status, DeliveryStatus::InTransit);
    assert_eq!(d.accepted_bid, Some("bid_1".to_string()));
}

#[test]
fn reconstruction_is_the_same_for_every_arrangement() {
    let mut events = rc_overlay_scenario();
    events.push(rc_root("e_root2", 150, rc_delivery("d1", DeliveryStatus::Accepted)));
    events.push(rc_bid_event("e_b1", "d1", rc_bid("bid_1", 10000, 120)));
    events.push(rc_bid_event("e_b2", "d1", rc_bid("bid_2", 8000, 110)));
    events.push(rc_bid_event("e_b2_again", "d1", rc_bid("bid_2", 7000, 115)));
    let expected = rc_show(&reconstruct(&events, "d1"));
    let n = events.len();
    // every rotation, and the reverse of every rotation
    for shift in 0..n {
        let mut rotated: Vec<LogEvent> = Vec::new();
        for k in 0..n {
            rotated.push(events[(k + shift) % n].clone());
        }
        assert_eq!(rc_show(&reconstruct(&rotated, "d1")), expected);
        rotated.reverse();
        assert_eq!(rc_show(&reconstruct(&rotated, "d1")), expected);
    }
}

#[test]
fn reconstruction_twice_gives_identical_results() {
    let events = rc_overlay_scenario();
    let first = rc_show(&reconstruct(&events, "d1"));
    let second = rc_show(&reconstruct(&events, "d1"));
    assert_eq!(first, second);
}

#[test]
fn newest_root_snapshot_wins() {
    let mut newer = rc_delivery("d1", DeliveryStatus::Open);
    newer.offer_amount = 30000;
    let events = vec![
        rc_root("e2", 500, newer),
        rc_root("e1", 100, rc_delivery("d1", DeliveryStatus::Open)),
    ];
    let d = reconstruct(&events, "d1").expect("root");
    assert_eq!(d.offer_amount, 30000);
}

#[test]
fn root_tie_is_broken_by_smallest_event_id() {
    let mut a = rc_delivery("d1", DeliveryStatus::Open);
    a.offer_amount = 1;
    let mut b = rc_delivery("d1", DeliveryStatus::Open);
    b.offer_amount = 2;
    let events = vec![rc_root("bbb", 100, b.clone()), rc_root("aaa", 100, a.clone())];
    assert_eq!(reconstruct(&events, "d1").expect("root").offer_amount, 1);
    let events = vec![rc_root("aaa", 100, a), rc_root("bbb", 100, b)];
    assert_eq!(reconstruct(&events, "d1").expect("root").offer_amount, 1);
}

#[test]
fn no_root_snapshot_gives_no_delivery() {
    let events = vec![
        rc_bid_event("e_b1", "d1", rc_bid("bid_1", 10000, 120)),
        rc_update_event("e_a", 35002, rc_update("d1", DeliveryStatus::Accepted, 200)),
        rc_root("e_other", 100, rc_delivery("d2", DeliveryStatus::Open)),
    ];
    assert!(reconstruct(&events, "d1").is_none());
    assert!(reconstruct(&Vec::new(), "d1").is_none());
}

#[test]
fn malformed_events_are_skipped() {
    let mut events = rc_overlay_scenario();
    let expected = rc_show(&reconstruct(&events, "d1"));
    events.insert(
        1,
        LogEvent {
            id: "e_bad".to_string(),
            kind: 35002,
            created_at: 999,
            tags: rc_tags("delivery_id", "d1"),
            payload: Payload::Malformed,
        },
    );
    events.push(LogEvent {
        id: "e_bad_root".to_string(),
        kind: 35000,
        created_at: 9999,
        tags: rc_tags("d", "d1"),
        payload: Payload::Malformed,
    });
    assert_eq!(rc_show(&reconstruct(&events, "d1")), expected);
}

#[test]
fn events_of_other_deliveries_are_left_out() {
    let mut events = rc_overlay_scenario();
    let mut other = rc_update("d2", DeliveryStatus::Confirmed, 400);
    other.accepted_bid = Some("bid_9".to_string());
    events.push(rc_update_event("e_other", 35006, other));
    events.push(rc_bid_event("e_b9", "d2", rc_bid("bid_9", 1, 1)));
    let d = reconstruct(&events, "d1").expect("root");
    assert_eq!(d.status, DeliveryStatus::InTransit);
    assert_eq!(d.accepted_bid, Some("bid_1".to_string()));
    assert!(d.bids.is_empty());
}

#[test]
fn bids_are_deduplicated_and_sorted() {
    let events = vec![
        rc_bid_event("e3", "d1", rc_bid("bid_c", 300, 30)),
        rc_bid_event("e1", "d1", rc_bid("bid_a", 100, 10)),
        rc_bid_event("e1", "d1", rc_bid("bid_a", 100, 10)),
        rc_bid_event("e2", "d1", rc_bid("bid_b", 200, 20)),
        rc_bid_event("e3", "d1", rc_bid("bid_c", 300, 30)),
    ];
    let bids = merge_bids(&events, "d1");
    let ids: Vec<&str> = bids.iter().map(|b| b.id.as_str()).collect();
    assert_eq!(ids, vec!["bid_a", "bid_b", "bid_c"]);
    let times: Vec<i64> = bids.iter().map(|b| b.created_at).collect();
    assert_eq!(times, vec![10, 20, 30]);
}

#[test]
fn disagreeing_duplicates_keep_the_later_bid() {
    let events = vec![
        rc_bid_event("e1", "d1", rc_bid("bid_a", 100, 10)),
        rc_bid_event("e2", "d1", rc_bid("bid_a", 150, 40)),
        rc_bid_event("e3", "d1", rc_bid("bid_b", 200, 20)),
    ];
    let bids = merge_bids(&events, "d1");
    assert_eq!(bids.len(), 2);
    assert_eq!(bids[0].id, "bid_b");
    assert_eq!(bids[1].id, "bid_a");
    assert_eq!(bids[1].amount, 150);
    assert_eq!(bids[1].created_at, 40);
}

#[test]
fn duplicates_of_equal_time_keep_the_smaller_event_id() {
    let events = vec![
        rc_bid_event("zzz", "d1", rc_bid("bid_a", 111, 10)),
        rc_bid_event("aaa", "d1", rc_bid("bid_a", 222, 10)),
    ];
    let bids = merge_bids(&events, "d1");
    assert_eq!(bids.len(), 1);
    assert_eq!(bids[0].amount, 222);
}

#[test]
fn bids_of_equal_time_are_listed_by_identifier() {
    let events = vec![
        rc_bid_event("e1", "d1", rc_bid("bid_b", 1, 10)),
        rc_bid_event("e2", "d1", rc_bid("bid_a", 2, 10)),
    ];
    let bids = merge_bids(&events, "d1");
    assert_eq!(bids[0].id, "bid_a");
    assert_eq!(bids[1].id, "bid_b");
}

#[test]
fn reconstructed_bids_replace_those_of_the_snapshot() {
    let mut root = rc_delivery("d1", DeliveryStatus::Open);
    root.bids = vec![rc_bid("stale", 1, 1)];
    let events = vec![
        rc_root("e_root", 100, root),
        rc_bid_event("e1", "d1", rc_bid("bid_a", 100, 10)),
    ];
    let d = reconstruct(&events, "d1").expect("root");
    assert_eq!(d.bids.len(), 1);
    assert_eq!(d.bids[0].id, "bid_a");
}

#[test]
fn updates_are_collected_in_timestamp_order() {
    let events = vec![
        rc_update_event("e3", 35005, rc_update("d1", DeliveryStatus::Completed, 300)),
        rc_update_event("e1", 35002, rc_update("d1", DeliveryStatus::Accepted, 100)),
        rc_update_event("e2b", 35004, rc_update("d1", DeliveryStatus::InTransit, 200)),
        rc_update_event("e2a", 35004, rc_update("d1", DeliveryStatus::InTransit, 200)),
    ];
    let updates = collect_updates(&events, "d1");
    let ids: Vec<&str> = updates.iter().map(|e| e.id.as_str()).collect();
    assert_eq!(ids, vec!["e1", "e2a", "e2b", "e3"]);
}

#[test]
fn apply_update_overwrites_only_what_is_present() {
    let mut d = rc_delivery("d1", DeliveryStatus::Accepted);
    d.accepted_bid = Some("bid_1".to_string());
    d.sender_rating = Some(4000);
    let mut u = rc_update("d1", DeliveryStatus::Completed, 500);
    u.completed_at = Some(499);
    u.proof_of_delivery = Some(ProofOfDelivery {
        images: vec!["img1".to_string()],
        signature_name: Some("Ann".to_string()),
        timestamp: 499,
        location: None,
        comments: None,
    });
    apply_update(&mut d, &u);
    assert_eq!(d.status, DeliveryStatus::Completed);
    assert_eq!(d.completed_at, Some(499));
    assert_eq!(d.accepted_bid, Some("bid_1".to_string()));
    assert_eq!(d.sender_rating, Some(4000));
    assert_eq!(d.sender_feedback, None);
    let p = d.proof_of_delivery.expect("proof");
    assert_eq!(p.images, vec!["img1".to_string()]);
    assert_eq!(p.signature_name, Some("Ann".to_string()));
}

#[test]
fn all_deliveries_are_listed_once_in_order_of_identifier() {
    let events = vec![
        rc_root("e1", 100, rc_delivery("delivery_b", DeliveryStatus::Open)),
        rc_root("e2", 100, rc_delivery("delivery_a", DeliveryStatus::Open)),
        rc_root("e3", 200, rc_delivery("delivery_b", DeliveryStatus::Accepted)),
        rc_update_event("e4", 35004, rc_update("delivery_a", DeliveryStatus::InTransit, 300)),
    ];
    let all = reconstruct_all(&events);
    assert_eq!(all.len(), 2);
    assert_eq!(all[0].id, "delivery_a");
    assert_eq!(all[0].status, DeliveryStatus::InTransit);
    assert_eq!(all[1].id, "delivery_b");
    assert_eq!(all[1].status, DeliveryStatus::Accepted);
}

#[test]
fn profile_is_the_latest_published_or_the_default() {
    let p = |earn: u64| UserProfile {
        npub: "npub1c".to_string(),
        display_name: Some("Cy".to_string()),
        reputation: 4800,
        completed_deliveries: 7,
        total_earnings: earn,
        verified_identity: true,
        lightning_address: None,
    };
    let ev = |id: &str, at: i64, earn: u64| LogEvent {
        id: id.to_string(),
        kind: 35009,
        created_at: at,
        tags: rc_tags("d", "npub1c"),
        payload: Payload::Profile(p(earn)),
    };
    let events = vec![ev("e1", 10, 100), ev("e2", 30, 300), ev("e3", 20, 200)];
    assert_eq!(latest_profile(&events, "npub1c").total_earnings, 300);
    let unseen = latest_profile(&events, "npub1x");
    assert_eq!(unseen.npub, "npub1x");
    assert_eq!(unseen.reputation, 4500);
    assert_eq!(unseen.completed_deliveries, 0);
    assert_eq!(unseen.total_earnings, 0);
    assert_eq!(unseen.display_name, None);
    assert!(!unseen.verified_identity);
}

#[test]
fn tags_are_matched_on_name_and_value() {
    let tags = vec![
        vec!["delivery_id".to_string()],
        vec!["delivery_id".to_string(), "d1".to_string(), "extra".to_string()],
        vec!["status".to_string(), "open".to_string()],
    ];
    assert!(has_tag(&tags, "delivery_id", "d1"));
    assert!(has_tag(&tags, "status", "open"));
    assert!(!has_tag(&tags, "delivery_id", "d2"));
    assert!(!has_tag(&tags, "d1", "delivery_id"));
    assert!(!has_tag(&Vec::new(), "d", "x"));
}

#[test]
fn kinds_name_their_records() {
    assert_eq!(record_kind(35000), RecordKind::Delivery);
    assert_eq!(record_kind(35001), RecordKind::Bid);
    assert_eq!(record_kind(35002), RecordKind::Update);
    assert_eq!(record_kind(35006), RecordKind::Update);
    assert_eq!(record_kind(35009), RecordKind::Profile);
    assert_eq!(record_kind(35007), RecordKind::Unknown);
    assert_eq!(record_kind(1), RecordKind::Unknown);
}
