use delivery_core::status::{kind_status, parse_status, status_kind, status_name, DeliveryStatus};

#[test]
fn status_kinds_round_trip() {
    assert_eq!(status_kind(DeliveryStatus::Accepted), Some(35002));
    assert_eq!(status_kind(DeliveryStatus::Open), Some(35003));
    assert_eq!(status_kind(DeliveryStatus::InTransit), Some(35004));
    assert_eq!(status_kind(DeliveryStatus::Completed), Some(35005));
    assert_eq!(status_kind(DeliveryStatus::Confirmed), Some(35006));
    assert_eq!(status_kind(DeliveryStatus::Disputed), None);
    assert_eq!(status_kind(DeliveryStatus::Expired), None);
    assert_eq!(kind_status(35004), Some(DeliveryStatus::InTransit));
    assert_eq!(kind_status(35000), None);
    assert_eq!(kind_status(35007), None);
}

#[test]
fn status_names_are_lower_case() {
    assert_eq!(status_name(DeliveryStatus::InTransit), "intransit");
    assert_eq!(status_name(DeliveryStatus::Open), "open");
}

#[test]
fn status_is_parsed_in_any_case() {
    assert_eq!(parse_status("accepted"), Some(DeliveryStatus::Accepted));
    assert_eq!(parse_status("IN_TRANSIT"), Some(DeliveryStatus::InTransit));
    assert_eq!(parse_status("InTransit"), Some(DeliveryStatus::InTransit));
    assert_eq!(parse_status("Completed"), Some(DeliveryStatus::Completed));
    assert_eq!(parse_status("confirmed"), Some(DeliveryStatus::Confirmed));
    assert_eq!(parse_status("open"), None);
    assert_eq!(parse_status("expired"), None);
    assert_eq!(parse_status(""), None);
}

#[test]
fn records_are_found_at_the_root_of_the_crate() {
    let p = delivery_core::GeoPoint { lat: 38_252_700, lng: -85_758_500 };
    assert_eq!(p, delivery_core::model::GeoPoint { lat: 38_252_700, lng: -85_758_500 });
    assert_eq!(delivery_core::DeliveryStatus::Open, DeliveryStatus::Open);
    assert_eq!(delivery_core::calculate_new_reputation(4500, 5000), 4600);
    assert_eq!(delivery_core::UserProfile::default().reputation, 4500);
}
