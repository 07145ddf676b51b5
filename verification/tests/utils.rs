use core_staking::attributes::{Attribute, Attributes};
use core_staking::error::ErrorCode;
use core_staking::utils::{
    calculate_rewards, can_calculate, get_attribute_value, update_attribute, SECONDS_PER_DAY,
};

fn list(pairs: &[(&str, &str)]) -> Vec<Attribute> {
    pairs
        .iter()
        .map(|(key, value)| Attribute { key: key.to_string(), value: value.to_string() })
        .collect()
}

#[test]
fn a_day_has_86400_seconds() {
    assert_eq!(SECONDS_PER_DAY, 24 * 60 * 60);
}

#[test]
fn rewards_are_basis_points_of_a_token_per_day() {
    assert_eq!(calculate_rewards(10, 500, 6), Ok(500_000));
    assert_eq!(calculate_rewards(1, 10_000, 9), Ok(1_000_000_000));
    assert_eq!(calculate_rewards(3, 7, 0), Ok(0));
    assert_eq!(calculate_rewards(3, 3334, 0), Ok(1));
}

#[test]
fn rewards_for_nothing_are_nothing() {
    assert_eq!(calculate_rewards(0, 500, 6), Ok(0));
    assert_eq!(calculate_rewards(10, 0, 19), Ok(0));
}

#[test]
fn rewards_that_do_not_fit_are_refused() {
    assert_eq!(calculate_rewards(u64::MAX, 2, 0), Err(ErrorCode::InvalidRewardsBps));
    assert_eq!(calculate_rewards(u64::MAX, 1, 0), Ok(u64::MAX / 10_000));
    assert_eq!(calculate_rewards(2, 1, 19), Err(ErrorCode::InvalidRewardsBps));
    assert_eq!(calculate_rewards(1, 1, 19), Ok(1_000_000_000_000_000));
    assert_eq!(calculate_rewards(u64::MAX, 2, 200), Err(ErrorCode::InvalidRewardsBps));
}

#[test]
fn the_scale_of_the_token_must_fit_unless_it_is_not_needed() {
    assert!(can_calculate(1, 1, 19));
    assert!(!can_calculate(1, 1, 20));
    assert!(!can_calculate(0, 0, 255));
    assert!(can_calculate(u64::MAX, 2, 20));
}

#[test]
fn splitting_days_gains_nothing() {
    let whole = calculate_rewards(3, 5000, 0).unwrap();
    let parts = calculate_rewards(1, 5000, 0).unwrap() + calculate_rewards(2, 5000, 0).unwrap();
    assert_eq!((whole, parts), (1, 1));
    let parts = 3 * calculate_rewards(1, 5000, 0).unwrap();
    assert_eq!(parts, 0);
}

#[test]
fn more_days_never_pay_less() {
    assert_eq!(calculate_rewards(7, 123, 4), Ok(861));
    assert_eq!(calculate_rewards(8, 123, 4), Ok(984));
}

#[test]
fn a_lookup_finds_the_first_value() {
    let attributes = Attributes {
        attribute_list: list(&[("a", "1"), ("b", "2"), ("a", "3")]),
    };
    assert_eq!(get_attribute_value(&attributes, "a"), Some("1".to_string()));
    assert_eq!(get_attribute_value(&attributes, "b"), Some("2".to_string()));
    assert_eq!(get_attribute_value(&attributes, "c"), None);
    assert_eq!(get_attribute_value(&attributes, ""), None);
}

#[test]
fn an_update_changes_the_first_attribute_with_the_key() {
    let mut attributes = list(&[("a", "1"), ("b", "2"), ("a", "3")]);
    update_attribute(&mut attributes, "a", "9".to_string());
    assert_eq!(attributes, list(&[("a", "9"), ("b", "2"), ("a", "3")]));
}

#[test]
fn an_update_of_a_new_key_adds_an_attribute() {
    let mut attributes = list(&[("a", "1")]);
    update_attribute(&mut attributes, "c", "9".to_string());
    assert_eq!(attributes, list(&[("a", "1"), ("c", "9")]));
}

#[test]
fn the_later_update_wins() {
    let mut attributes = list(&[("a", "1")]);
    update_attribute(&mut attributes, "a", "2".to_string());
    update_attribute(&mut attributes, "a", "3".to_string());
    assert_eq!(attributes, list(&[("a", "3")]));
    update_attribute(&mut attributes, "a", "3".to_string());
    assert_eq!(attributes, list(&[("a", "3")]));
}

#[test]
fn an_update_is_looked_up_and_leaves_the_rest() {
    let mut attributes = list(&[("a", "1"), ("b", "2")]);
    update_attribute(&mut attributes, "b", "5".to_string());
    let attributes = Attributes { attribute_list: attributes };
    assert_eq!(get_attribute_value(&attributes, "b"), Some("5".to_string()));
    assert_eq!(get_attribute_value(&attributes, "a"), Some("1".to_string()));
    assert_eq!(attributes.clone(), attributes);
}
