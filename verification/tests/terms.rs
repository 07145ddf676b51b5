use core_staking::attributes::{Attribute, Attributes};
use core_staking::error::ErrorCode;
use core_staking::instructions::claim_rewards::{claim_terms, settle, ClaimTerms};
use core_staking::instructions::unstake::{count_down, unstake_terms};
use core_staking::state::Config;
use core_staking::utils::get_attribute_value;

const DAY: i64 = 86400;
const START: i64 = 1_700_000_000;

fn attributes(pairs: &[(&str, &str)]) -> Attributes {
    Attributes {
        attribute_list: pairs
            .iter()
            .map(|(key, value)| Attribute { key: key.to_string(), value: value.to_string() })
            .collect(),
    }
}

fn staked(staked_at: &str, last_claimed_at: &str) -> Attributes {
    attributes(&[
        ("level", "7"),
        ("staked", "true"),
        ("staked_at", staked_at),
        ("last_claimed_at", last_claimed_at),
    ])
}

fn config(freeze_period: i64) -> Config {
    Config { rewards_bps: 100, freeze_period, rewards_bump: 1, bump: 2 }
}

fn terms(last_claimed_at: i64, days: u64) -> Result<ClaimTerms, ErrorCode> {
    Ok(ClaimTerms { last_claimed_at, days })
}

#[test]
fn a_claim_pays_for_full_days_since_the_last_one() {
    let asset = staked("1600000000", "1700000000");
    assert_eq!(claim_terms(&asset, START), terms(START, 0));
    assert_eq!(claim_terms(&asset, START + DAY - 1), terms(START, 0));
    assert_eq!(claim_terms(&asset, START + DAY), terms(START, 1));
    assert_eq!(claim_terms(&asset, START + 10 * DAY + 5), terms(START, 10));
}

#[test]
fn an_asset_without_a_last_claim_is_paid_since_it_was_staked() {
    assert_eq!(claim_terms(&staked("1700000000", "0"), START + DAY), terms(START, 1));
    let older = attributes(&[("staked", "true"), ("staked_at", "1700000000")]);
    assert_eq!(claim_terms(&older, START + 2 * DAY), terms(START, 2));
}

#[test]
fn a_claim_on_an_asset_that_is_not_staked_is_refused() {
    let asset = attributes(&[("staked", "false"), ("staked_at", "1700000000")]);
    assert_eq!(claim_terms(&asset, START), Err(ErrorCode::AssetNotStaked));
    let asset = attributes(&[("staked", "True"), ("staked_at", "1700000000")]);
    assert_eq!(claim_terms(&asset, START), Err(ErrorCode::AssetNotStaked));
    assert_eq!(claim_terms(&attributes(&[]), START), Err(ErrorCode::AssetNotStaked));
}

#[test]
fn the_last_word_on_being_staked_counts() {
    let asset = attributes(&[
        ("staked", "false"),
        ("staked_at", "1700000000"),
        ("staked", "true"),
    ]);
    assert_eq!(claim_terms(&asset, START), terms(START, 0));
}

#[test]
fn unreadable_timestamps_are_refused_before_anything_else() {
    for text in ["", "-", "+", " 1", "1 ", "1_000", "x", "9223372036854775808", "0x10"] {
        let asset = attributes(&[("staked_at", text)]);
        assert_eq!(claim_terms(&asset, START), Err(ErrorCode::InvalidTimestamp));
        let asset = attributes(&[("last_claimed_at", text)]);
        assert_eq!(claim_terms(&asset, START), Err(ErrorCode::InvalidTimestamp));
        assert_eq!(
            unstake_terms(&asset, START, &config(0)),
            Err(ErrorCode::InvalidTimestamp)
        );
    }
}

#[test]
fn signs_and_leading_zeros_are_read() {
    assert_eq!(claim_terms(&staked("1", "+1700000000"), START), terms(START, 0));
    assert_eq!(claim_terms(&staked("1", "0001700000000"), START), terms(START, 0));
    assert_eq!(claim_terms(&staked("1", "-0"), 1), terms(1, 0));
    assert_eq!(
        claim_terms(&staked("1", "9223372036854775807"), i64::MAX),
        terms(i64::MAX, 0)
    );
}

#[test]
fn a_claim_needs_a_positive_time() {
    assert_eq!(claim_terms(&staked("0", "0"), START), Err(ErrorCode::InvalidTimestamp));
    assert_eq!(claim_terms(&staked("5", "-1"), START), Err(ErrorCode::InvalidTimestamp));
    let asset = attributes(&[("staked", "true")]);
    assert_eq!(claim_terms(&asset, START), Err(ErrorCode::InvalidTimestamp));
}

#[test]
fn a_time_out_of_range_is_refused() {
    assert_eq!(claim_terms(&staked("1", "1"), i64::MIN), Err(ErrorCode::NumericalOverflow));
    assert_eq!(claim_terms(&staked("1", "1"), i64::MIN + 1), terms(1, (1u64 << 63) / 86400));
}

#[test]
fn an_interval_into_the_past_is_read_as_unsigned() {
    let asset = staked("1", "1700000000");
    assert_eq!(claim_terms(&asset, START - 1), terms(START, u64::MAX / 86400));
    let claim = claim_terms(&asset, START - 1).unwrap();
    let next = settle(asset, claim).unwrap();
    let rest = u64::MAX % 86400;
    assert_eq!(
        get_attribute_value(&next, "last_claimed_at"),
        Some((START - 1 - rest as i64).to_string())
    );
}

#[test]
fn a_settlement_moves_by_the_days_paid_for() {
    let asset = staked("1600000000", "1700000000");
    let claim = claim_terms(&asset, START + 3 * DAY + 7).unwrap();
    let next = settle(asset, claim).unwrap();
    assert_eq!(next, staked("1600000000", "1700259200"));
}

#[test]
fn a_settlement_adds_a_missing_claim_time() {
    let asset = attributes(&[("staked", "true"), ("staked_at", "1700000000")]);
    let claim = claim_terms(&asset, START + DAY).unwrap();
    let next = settle(asset, claim).unwrap();
    assert_eq!(
        next,
        attributes(&[
            ("staked", "true"),
            ("staked_at", "1700000000"),
            ("last_claimed_at", "1700086400"),
        ])
    );
}

#[test]
fn a_settlement_out_of_range_is_refused() {
    let late = ClaimTerms { last_claimed_at: i64::MAX, days: 1 };
    assert_eq!(settle(staked("1", "1"), late), Err(ErrorCode::NumericalOverflow));
    let long = ClaimTerms { last_claimed_at: 1, days: u64::MAX };
    assert_eq!(settle(staked("1", "1"), long), Err(ErrorCode::NumericalOverflow));
}

#[test]
fn negative_times_are_written_with_a_sign() {
    let back = ClaimTerms { last_claimed_at: -86401, days: 1 };
    let next = settle(attributes(&[]), back).unwrap();
    assert_eq!(next, attributes(&[("last_claimed_at", "-1")]));
}

#[test]
fn a_second_claim_pays_nothing() {
    let asset = staked("1600000000", "1700000000");
    let now = START + 3 * DAY + 7;
    let claim = claim_terms(&asset, now).unwrap();
    let next = settle(asset, claim).unwrap();
    assert_eq!(claim_terms(&next, now), terms(START + 3 * DAY, 0));
}

#[test]
fn two_claims_pay_as_one() {
    let asset = staked("1600000000", "1700000000");
    let (now, later) = (START + 3 * DAY + 50_000, START + 9 * DAY + 49_999);
    let first = claim_terms(&asset, now).unwrap();
    let between = settle(asset.clone(), first).unwrap();
    let second = claim_terms(&between, later).unwrap();
    let whole = claim_terms(&asset, later).unwrap();
    assert_eq!((first.days, second.days, whole.days), (3, 6, 9));
    assert_eq!(
        settle(between, second).unwrap(),
        settle(asset, whole).unwrap()
    );
}

#[test]
fn unstaking_clears_the_record_behind_the_other_attributes() {
    let asset = attributes(&[
        ("staked", "true"),
        ("level", "7"),
        ("staked_at", "1700000000"),
        ("last_claimed_at", "1700000000"),
        ("name", "x"),
    ]);
    let (days, after) = unstake_terms(&asset, START + 5 * DAY + 1, &config(5)).unwrap();
    assert_eq!(days, 5);
    assert_eq!(
        after,
        attributes(&[
            ("level", "7"),
            ("name", "x"),
            ("staked", "false"),
            ("staked_at", "0"),
            ("last_claimed_at", "0"),
        ])
    );
}

#[test]
fn unstaking_waits_for_the_freeze_period() {
    let asset = staked("1700000000", "0");
    assert_eq!(
        unstake_terms(&asset, START + 5 * DAY - 1, &config(5)),
        Err(ErrorCode::FreezePeriodNotElapsed)
    );
    assert!(unstake_terms(&asset, START + 5 * DAY, &config(5)).is_ok());
}

#[test]
fn days_since_staking_are_counted_towards_zero() {
    let asset = attributes(&[("staked_at", "1700000000")]);
    assert!(unstake_terms(&asset, START - DAY + 1, &config(0)).is_ok());
    assert_eq!(
        unstake_terms(&asset, START - DAY, &config(0)),
        Err(ErrorCode::FreezePeriodNotElapsed)
    );
    assert!(unstake_terms(&asset, START - DAY, &config(-1)).is_ok());
}

#[test]
fn unstaking_an_asset_that_is_not_staked_is_refused() {
    let asset = attributes(&[("staked", "false"), ("staked_at", "bad")]);
    assert_eq!(unstake_terms(&asset, START, &config(0)), Err(ErrorCode::AssetNotStaked));
    let asset = attributes(&[("staked_at", "bad"), ("staked", "false")]);
    assert_eq!(unstake_terms(&asset, START, &config(0)), Err(ErrorCode::InvalidTimestamp));
}

#[test]
fn unstaking_refuses_times_out_of_range() {
    let asset = attributes(&[("staked_at", "-9223372036854775808")]);
    assert_eq!(unstake_terms(&asset, 0, &config(0)), Err(ErrorCode::InvalidTimestamp));
    let asset = attributes(&[("last_claimed_at", "-9223372036854775808")]);
    assert_eq!(unstake_terms(&asset, 0, &config(0)), Err(ErrorCode::InvalidTimestamp));
}

#[test]
fn unstaking_without_any_record_counts_from_the_epoch() {
    let (days, after) = unstake_terms(&attributes(&[]), 3 * DAY, &config(9)).unwrap();
    assert_eq!(days, 3);
    assert_eq!(
        after,
        attributes(&[("staked", "false"), ("staked_at", "0"), ("last_claimed_at", "0")])
    );
}

#[test]
fn an_unstaked_asset_can_neither_claim_nor_unstake() {
    let (_, after) = unstake_terms(&staked("1700000000", "0"), START, &config(0)).unwrap();
    assert_eq!(claim_terms(&after, START + DAY), Err(ErrorCode::AssetNotStaked));
    assert_eq!(
        unstake_terms(&after, START + DAY, &config(0)),
        Err(ErrorCode::AssetNotStaked)
    );
}

#[test]
fn unstaking_pays_what_claims_left() {
    let asset = staked("1700000000", "0");
    let now = START + 3 * DAY + 50_000;
    let later = START + 9 * DAY + 49_999;
    let claim = claim_terms(&asset, now).unwrap();
    let between = settle(asset.clone(), claim).unwrap();
    let (rest, _) = unstake_terms(&between, later, &config(0)).unwrap();
    let (whole, _) = unstake_terms(&asset, later, &config(0)).unwrap();
    assert_eq!((claim.days, rest, whole), (3, 6, 9));
    assert_eq!(claim_terms(&asset, later).unwrap().days, whole);
}

#[test]
fn claims_and_unstaking_pay_every_day() {
    for first in ["0", "1700000000"] {
        let whole = staked("1700000000", first);
        let end = START + 9 * DAY + 49_999;
        let mut asset = whole.clone();
        let mut paid = vec![];
        for seconds in [100, DAY - 1, DAY, DAY + 5, 4 * DAY + 80_000, 5 * DAY - 1, 9 * DAY] {
            let claim = claim_terms(&asset, START + seconds).unwrap();
            if claim.days > 0 {
                asset = settle(asset, claim).unwrap();
            }
            paid.push(claim.days);
        }
        assert_eq!(paid, [0, 0, 1, 0, 3, 0, 5]);
        let (rest, _) = unstake_terms(&asset, end + DAY, &config(10)).unwrap();
        assert_eq!(paid.iter().sum::<u64>() + rest, 10);
        assert_eq!(unstake_terms(&whole, end + DAY, &config(10)).unwrap().0, 10);
    }
}

#[test]
fn days_before_the_last_claim_are_paid_as_often_as_without_claims() {
    let asset = staked("1700000000", "0");
    let (now, end) = (START - 3 * DAY, START - DAY);
    let claim = claim_terms(&asset, now).unwrap();
    let between = settle(asset.clone(), claim).unwrap();
    let (rest, _) = unstake_terms(&between, end, &config(-9)).unwrap();
    let (whole, _) = unstake_terms(&asset, end, &config(-9)).unwrap();
    assert_eq!(claim.days + rest, whole);
}

#[test]
fn the_collection_is_counted_down() {
    let after = count_down(Some(attributes(&[("a", "1"), ("total_staked", "10")])));
    assert_eq!(after, Some(attributes(&[("a", "1"), ("total_staked", "9")])));
    let after = count_down(Some(attributes(&[("total_staked", "+1")])));
    assert_eq!(after, Some(attributes(&[("total_staked", "0")])));
    let after = count_down(Some(attributes(&[("total_staked", "4294967295")])));
    assert_eq!(after, Some(attributes(&[("total_staked", "4294967294")])));
}

#[test]
fn a_count_that_is_missing_zero_or_unreadable_stays() {
    assert_eq!(count_down(None), None);
    assert_eq!(count_down(Some(attributes(&[]))), None);
    for text in ["0", "", "-1", "-0", "x", "4294967296", "+"] {
        assert_eq!(count_down(Some(attributes(&[("total_staked", text)]))), None);
    }
    assert_eq!(
        count_down(Some(attributes(&[("total_staked", "0"), ("total_staked", "5")]))),
        None
    );
}
