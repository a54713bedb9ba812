use delivery_core::model::UserProfile;
use delivery_core::reputation::{calculate_new_reputation, weighted_reputation};

fn rp_courier() -> UserProfile {
    UserProfile {
        npub: "npub1demo".to_string(),
        display_name: Some("Demo User".to_string()),
        reputation: 4500,
        completed_deliveries: 12,
        total_earnings: 250_000,
        verified_identity: true,
        lightning_address: Some("demo@getalby.com".to_string()),
    }
}

#[test]
fn default_profile_has_four_and_a_half_stars() {
    let p = UserProfile::default();
    assert_eq!(p.npub, "");
    assert_eq!(p.display_name, None);
    assert_eq!(p.reputation, 4500);
    assert_eq!(p.completed_deliveries, 0);
    assert_eq!(p.total_earnings, 0);
    assert!(!p.verified_identity);
    assert_eq!(p.lightning_address, None);
}

#[test]
fn weighted_average_has_exact_values() {
    assert_eq!(weighted_reputation(4500, 0, 3000), 3000);
    assert_eq!(weighted_reputation(4500, 12, 5000), 4538);
    assert_eq!(weighted_reputation(4000, 1, 5000), 4500);
    assert_eq!(weighted_reputation(5000, 3, 1000), 4000);
    assert_eq!(weighted_reputation(0, 9, 5000), 500);
    assert_eq!(weighted_reputation(u32::MAX, u32::MAX, u32::MAX), u32::MAX);
}

#[test]
fn approach_rule_has_exact_values() {
    assert_eq!(calculate_new_reputation(4500, 5000), 4600);
    assert_eq!(calculate_new_reputation(5000, 5000), 5000);
    assert_eq!(calculate_new_reputation(0, 0), 500);
    assert_eq!(calculate_new_reputation(4500, 1000), 4200);
    assert_eq!(calculate_new_reputation(4501, 1001), 4200);
}

#[test]
fn reputation_stays_within_five_stars() {
    let mut old = 0;
    while old <= 5000 {
        let mut rating = 0;
        while rating <= 5000 {
            for n in [0u32, 1, 2, 7, 1000, u32::MAX] {
                assert!(weighted_reputation(old, n, rating) <= 5000);
            }
            assert!(calculate_new_reputation(old, rating) <= 5000);
            rating += 250;
        }
        old += 250;
    }
}

#[test]
fn confirmation_credits_one_delivery_and_the_offer() {
    let mut p = rp_courier();
    assert!(p.can_credit_confirmation(8000));
    p.credit_confirmation(8000, Some(5000));
    assert_eq!(p.completed_deliveries, 13);
    assert_eq!(p.total_earnings, 258_000);
    assert_eq!(p.reputation, 4538);
    assert!(p.reputation <= 5000);
    assert_eq!(p.npub, "npub1demo");
    assert_eq!(p.display_name, Some("Demo User".to_string()));
    assert!(p.verified_identity);
}

#[test]
fn confirmation_without_rating_leaves_the_reputation() {
    let mut p = rp_courier();
    p.credit_confirmation(100, None);
    assert_eq!(p.reputation, 4500);
    assert_eq!(p.completed_deliveries, 13);
    assert_eq!(p.total_earnings, 250_100);
}

#[test]
fn first_rating_becomes_the_reputation() {
    let mut p = UserProfile::unseen("npub1new");
    p.credit_confirmation(5000, Some(3000));
    assert_eq!(p.reputation, 3000);
    assert_eq!(p.completed_deliveries, 1);
    assert_eq!(p.total_earnings, 5000);
}

#[test]
fn cancellation_pays_without_touching_count_or_reputation() {
    let mut p = rp_courier();
    assert!(p.can_credit_cancellation(8000));
    p.credit_cancellation(8000);
    assert_eq!(p.total_earnings, 258_000);
    assert_eq!(p.completed_deliveries, 12);
    assert_eq!(p.reputation, 4500);
}

#[test]
fn full_counters_are_told_before_crediting() {
    let mut p = rp_courier();
    p.total_earnings = u64::MAX - 10;
    assert!(p.can_credit_confirmation(10));
    assert!(!p.can_credit_confirmation(11));
    assert!(p.can_credit_cancellation(10));
    assert!(!p.can_credit_cancellation(11));
    p.total_earnings = 0;
    p.completed_deliveries = u32::MAX;
    assert!(!p.can_credit_confirmation(1));
    assert!(p.can_credit_cancellation(1));
}

#[test]
fn details_are_replaced_where_given() {
    let mut p = rp_courier();
    p.update_details(&Some("New Name".to_string()), &None);
    assert_eq!(p.display_name, Some("New Name".to_string()));
    assert_eq!(p.lightning_address, Some("demo@getalby.com".to_string()));
    p.update_details(&None, &Some("me@ln.example".to_string()));
    assert_eq!(p.display_name, Some("New Name".to_string()));
    assert_eq!(p.lightning_address, Some("me@ln.example".to_string()));
    assert_eq!(p.reputation, 4500);
}
