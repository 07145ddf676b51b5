//! Taking an asset out of staking.
//!
//! Unstaking clears the staking record of the asset, lets the asset be transferred again,
//! counts the collection's staked assets down, and pays the rewards that are still owed. It
//! runs in steps: each step looks at the accounts and names the call to make next.

use crate::accounts::{
    accounts_verdict, authority_seeds, check_accounts, config_seeds, StakingAccounts,
};
use crate::action::{Action, ActionView};
use crate::address::{seeds_with_bump, CONFIG_SEED, UPDATE_AUTHORITY_SEED};
use crate::attributes::{
    first_value, list_view, optional_view, updated, Attribute, AttributeView,
    Attributes,
};
use crate::decimal::{notation, parse_i64, parse_u32, parsed_i64, parsed_u32, u32_to_string};
use crate::error::ErrorCode;
use crate::plugins::{
    asset_attributes, asset_readable, attributes_of_asset, attributes_of_collection,
    collection_attributes, collection_readable,
};
use crate::record::{
    days_in, full_days, is_record_key, last_claimed_key, lemma_keys_differ, paid_until,
    staked_at_key, staked_key, timestamp, whole_days,
};
use crate::state::Config;
use crate::utils::{
    calculate_rewards, can_calculate, get_attribute_value, rewards, rewards_computable,
    update_attribute, SECONDS_PER_DAY,
};
use vstd::prelude::*;

verus! {

/// The accounts of an unstaking.
#[derive(Debug, PartialEq, Eq)]
pub struct Unstake {
    pub accounts: StakingAccounts,
}

/// How far an unstaking has come.
#[derive(Clone, Copy, Debug, PartialEq, Eq, Structural)]
pub enum UnstakeState {
    /// Nothing has been done yet.
    Start,
    /// The staking record of the asset is cleared.
    Cleared { days: u64, authority_bump: u8 },
    /// The asset can be transferred again.
    Thawed { days: u64, authority_bump: u8 },
    /// The staked assets of the collection are counted down.
    Counted { days: u64 },
    /// Nothing is left to do.
    Finished,
}

/// What a step of an unstaking says.
pub open spec fn step_view(step: Result<(UnstakeState, Action), ErrorCode>) -> Result<
    (UnstakeState, ActionView),
    ErrorCode,
> {
    match step {
        Ok((state, action)) => Ok((state, action@)),
        Err(e) => Err(e),
    }
}

/// What an optional step of an unstaking says.
pub open spec fn optional_step_view(
    step: Option<Result<(UnstakeState, Action), ErrorCode>>,
) -> Option<Result<(UnstakeState, ActionView), ErrorCode>> {
    match step {
        Some(s) => Some(step_view(s)),
        None => None,
    }
}

/// Why an attribute stands against unstaking at the time `now`: the asset is not staked, a
/// timestamp cannot be used, or the asset has not been staked for `freeze_period` days.
pub open spec fn fault(attribute: AttributeView, now: i64, freeze_period: i64) -> Option<
    ErrorCode,
> {
    if attribute.key == staked_key() {
        if attribute.value == "true"@ {
            None
        } else {
            Some(ErrorCode::AssetNotStaked)
        }
    } else if attribute.key == staked_at_key() {
        match parsed_i64(attribute.value) {
            None => Some(ErrorCode::InvalidTimestamp),
            Some(staked_at) => {
                if now - staked_at < i64::MIN || now - staked_at > i64::MAX {
                    Some(ErrorCode::InvalidTimestamp)
                } else if whole_days(now - staked_at) < freeze_period {
                    Some(ErrorCode::FreezePeriodNotElapsed)
                } else {
                    None
                }
            },
        }
    } else if attribute.key == last_claimed_key() {
        if parsed_i64(attribute.value) is Some {
            None
        } else {
            Some(ErrorCode::InvalidTimestamp)
        }
    } else {
        None
    }
}

/// What the first attribute that stands against unstaking says.
pub open spec fn first_fault(list: Seq<AttributeView>, now: i64, freeze_period: i64) -> Option<
    ErrorCode,
>
    decreases list.len(),
{
    if list.len() == 0 {
        None
    } else {
        match first_fault(list.drop_last(), now, freeze_period) {
            Some(e) => Some(e),
            None => fault(list.last(), now, freeze_period),
        }
    }
}

/// The number of full days for which rewards are still owed.
pub open spec fn days_owed(list: Seq<AttributeView>, now: i64, freeze_period: i64) -> Result<
    u64,
    ErrorCode,
> {
    match first_fault(list, now, freeze_period) {
        Some(e) => Err(e),
        None => {
            let seconds = now - paid_until(list);
            if seconds < i64::MIN || seconds > i64::MAX {
                Err(ErrorCode::InvalidTimestamp)
            } else {
                Ok(full_days(seconds) as u64)
            }
        },
    }
}

/// The staking record of an asset that is not staked.
pub open spec fn cleared_record() -> Seq<AttributeView> {
    seq![
        AttributeView { key: staked_key(), value: "false"@ },
        AttributeView { key: staked_at_key(), value: "0"@ },
        AttributeView { key: last_claimed_key(), value: "0"@ },
    ]
}

/// The attributes that do not belong to the staking record, in their order.
pub open spec fn other_attributes(list: Seq<AttributeView>) -> Seq<AttributeView> {
    list.filter(|a: AttributeView| !is_record_key(a.key))
}

/// The attributes of an asset once it is unstaked: the others as they were, and behind them a
/// staking record that says so.
pub open spec fn cleared(list: Seq<AttributeView>) -> Seq<AttributeView> {
    other_attributes(list) + cleared_record()
}

/// The first step of an unstaking of an asset with these attributes, in accounts that keep the
/// rules.
pub open spec fn opening(
    accounts: &StakingAccounts,
    authority_bump: u8,
    attributes: Option<Seq<AttributeView>>,
    now: i64,
) -> Result<(UnstakeState, ActionView), ErrorCode> {
    match attributes {
        None => Err(ErrorCode::AssetNotStaked),
        Some(list) => match days_owed(list, now, accounts.config.freeze_period) {
            Err(e) => Err(e),
            Ok(days) => Ok(
                (
                    UnstakeState::Cleared { days, authority_bump },
                    ActionView::UpdateAssetAttributes {
                        attributes: cleared(list),
                        signer: authority_seeds(accounts.collection.key@, authority_bump),
                    },
                ),
            ),
        },
    }
}

/// Key of the attribute that counts the staked assets of a collection.
pub open spec fn total_staked_key() -> Seq<char> {
    "total_staked"@
}

/// The number of staked assets that a collection counts; 0 where it keeps no readable count.
pub open spec fn total_staked(list: Seq<AttributeView>) -> u32 {
    match first_value(list, total_staked_key()) {
        Some(value) => match parsed_u32(value) {
            Some(n) => n,
            None => 0,
        },
        None => 0,
    }
}

/// The attributes of a collection with one staked asset less; none where there is nothing to
/// count down.
pub open spec fn counted_down(attributes: Option<Seq<AttributeView>>) -> Option<
    Seq<AttributeView>,
> {
    match attributes {
        Some(list) => if total_staked(list) > 0 {
            Some(updated(list, total_staked_key(), notation(total_staked(list) - 1)))
        } else {
            None
        },
        None => None,
    }
}

/// The last step: the rewards for `days` are minted, if there are any. There is no answer where
/// they cannot be computed.
pub open spec fn payout(accounts: &StakingAccounts, days: u64) -> Option<
    Result<(UnstakeState, ActionView), ErrorCode>,
> {
    if !rewards_computable(days, accounts.config.rewards_bps, accounts.decimals) {
        None
    } else {
        Some(
            match rewards(days, accounts.config.rewards_bps, accounts.decimals) {
                Err(e) => Err(e),
                Ok(amount) => Ok(
                    (
                        UnstakeState::Finished,
                        if amount > 0 {
                            ActionView::MintRewards {
                                amount,
                                decimals: accounts.decimals,
                                signer: config_seeds(
                                    accounts.collection.key@,
                                    accounts.config.bump,
                                ),
                            }
                        } else {
                            ActionView::Done
                        },
                    ),
                ),
            },
        )
    }
}

/// The step after the asset is thawed, given the attributes of the collection: the collection
/// is updated if there is something to count down, else the rewards are paid at once.
pub open spec fn count_step(
    accounts: &StakingAccounts,
    days: u64,
    authority_bump: u8,
    attributes: Option<Seq<AttributeView>>,
) -> Option<Result<(UnstakeState, ActionView), ErrorCode>> {
    match counted_down(attributes) {
        Some(list) => Some(
            Ok(
                (
                    UnstakeState::Counted { days },
                    ActionView::UpdateCollectionAttributes {
                        attributes: list,
                        signer: authority_seeds(accounts.collection.key@, authority_bump),
                    },
                ),
            ),
        ),
        None => payout(accounts, days),
    }
}

/// The next step of an unstaking: the state after it and the call to make, or the reason for
/// which the unstaking is refused. There is no answer where the accounts lead nowhere or the
/// rewards cannot be computed.
pub open spec fn unstake_step(ctx: &Unstake, now: i64, state: UnstakeState) -> Option<
    Result<(UnstakeState, ActionView), ErrorCode>,
> {
    let accounts = &ctx.accounts;
    match state {
        UnstakeState::Start => match accounts_verdict(accounts) {
            None => None,
            Some(Err(e)) => Some(Err(e)),
            Some(Ok(bump)) => {
                if asset_readable(accounts.asset.program@, accounts.asset.data@) {
                    Some(
                        opening(
                            accounts,
                            bump,
                            asset_attributes(accounts.asset.program@, accounts.asset.data@),
                            now,
                        ),
                    )
                } else {
                    None
                }
            },
        },
        UnstakeState::Cleared { days, authority_bump } => Some(
            Ok(
                (
                    UnstakeState::Thawed { days, authority_bump },
                    ActionView::ThawAsset {
                        signer: authority_seeds(accounts.collection.key@, authority_bump),
                    },
                ),
            ),
        ),
        UnstakeState::Thawed { days, authority_bump } => {
            if collection_readable(accounts.collection.program@, accounts.collection.data@) {
                count_step(
                    accounts,
                    days,
                    authority_bump,
                    collection_attributes(accounts.collection.program@, accounts.collection.data@),
                )
            } else {
                None
            }
        },
        UnstakeState::Counted { days } => payout(accounts, days),
        UnstakeState::Finished => Some(Ok((UnstakeState::Finished, ActionView::Done))),
    }
}

/// Why an attribute stands against unstaking at the time `now`; if nothing does, the timestamp
/// that it holds, or 0 where it holds none.
fn check_attribute(
    attribute: &Attribute,
    now: i64,
    freeze_period: i64,
    staked_name: &String,
    staked_at_name: &String,
    last_claimed_name: &String,
) -> (r: Result<i64, ErrorCode>)
    requires
        staked_name@ == staked_key(),
        staked_at_name@ == staked_at_key(),
        last_claimed_name@ == last_claimed_key(),
    ensures
        match r {
            Ok(n) => fault(attribute@, now, freeze_period) is None && ((attribute@.key
                == staked_at_key() || attribute@.key == last_claimed_key()) ==> parsed_i64(
                attribute@.value,
            ) == Some(n)),
            Err(e) => fault(attribute@, now, freeze_period) == Some(e),
        },
{
    proof {
        lemma_keys_differ();
    }
    if attribute.key.eq(staked_name) {
        let truth: String = "true".to_owned();
        if attribute.value.eq(&truth) {
            Ok(0)
        } else {
            Err(ErrorCode::AssetNotStaked)
        }
    } else if attribute.key.eq(staked_at_name) {
        let staked_at: i64 = match parse_i64(attribute.value.as_str()) {
            Some(n) => n,
            None => return Err(ErrorCode::InvalidTimestamp),
        };
        let seconds: i64 = match now.checked_sub(staked_at) {
            Some(seconds) => seconds,
            None => return Err(ErrorCode::InvalidTimestamp),
        };
        if seconds / SECONDS_PER_DAY >= freeze_period {
            Ok(staked_at)
        } else {
            Err(ErrorCode::FreezePeriodNotElapsed)
        }
    } else if attribute.key.eq(last_claimed_name) {
        match parse_i64(attribute.value.as_str()) {
            Some(n) => Ok(n),
            None => Err(ErrorCode::InvalidTimestamp),
        }
    } else {
        Ok(0)
    }
}

/// A fault in the front of a list is the first fault of the whole list.
proof fn lemma_fault_in_front(list: Seq<AttributeView>, n: int, now: i64, freeze_period: i64)
    requires
        0 <= n <= list.len(),
        first_fault(list.take(n), now, freeze_period) is Some,
    ensures
        first_fault(list, now, freeze_period) == first_fault(list.take(n), now, freeze_period),
    decreases list.len(),
{
    if n == list.len() {
        assert(list.take(n) =~= list);
    } else {
        assert(list.drop_last().take(n) =~= list.take(n));
        lemma_fault_in_front(list.drop_last(), n, now, freeze_period);
    }
}

/// An attribute with the given key and value.
fn attribute(key: &str, value: &str) -> (r: Attribute)
    ensures
        r@ == (AttributeView { key: key@, value: value@ }),
{
    Attribute { key: key.to_owned(), value: value.to_owned() }
}

/// For an asset that may be unstaked: the number of full days for which rewards are still owed,
/// and the attributes of the asset once it is unstaked.
pub fn unstake_terms(attributes: &Attributes, now: i64, config: &Config) -> (r: Result<
    (u64, Attributes),
    ErrorCode,
>)
    ensures
        match r {
            Ok((days, after)) => days_owed(attributes@, now, config.freeze_period) == Ok::<
                u64,
                ErrorCode,
            >(days) && after@ == cleared(attributes@),
            Err(e) => days_owed(attributes@, now, config.freeze_period) == Err::<u64, ErrorCode>(e),
        },
{
    let list: &Vec<Attribute> = &attributes.attribute_list;
    let freeze_period: i64 = config.freeze_period;
    let staked_name: String = "staked".to_owned();
    let staked_at_name: String = "staked_at".to_owned();
    let last_claimed_name: String = "last_claimed_at".to_owned();
    let mut others: Vec<Attribute> = Vec::with_capacity(list.len());
    let mut staked_at: i64 = 0;
    let mut last_claimed_at: i64 = 0;
    let ghost all = attributes@;
    let mut i: usize = 0;
    proof {
        lemma_keys_differ();
        reveal(Seq::filter);
        assert(list_view(others@) =~= other_attributes(all.take(0)));
    }
    while i < list.len()
        invariant
            i <= list.len(),
            all == list_view(list@),
            all == attributes@,
            freeze_period == config.freeze_period,
            staked_name@ == staked_key(),
            staked_at_name@ == staked_at_key(),
            last_claimed_name@ == last_claimed_key(),
            staked_key() != staked_at_key(),
            staked_key() != last_claimed_key(),
            staked_at_key() != last_claimed_key(),
            first_fault(all.take(i as int), now, freeze_period) is None,
            staked_at == timestamp(all.take(i as int), staked_at_key()),
            last_claimed_at == timestamp(all.take(i as int), last_claimed_key()),
            list_view(others@) == other_attributes(all.take(i as int)),
        decreases list.len() - i,
    {
        let attribute: &Attribute = &list[i];
        let ghost next = all.take(i + 1);
        let ghost before = list_view(others@);
        proof {
            reveal(Seq::filter);
            assert(next.drop_last() =~= all.take(i as int));
            assert(next.last() == attribute@);
        }
        match check_attribute(
            attribute,
            now,
            freeze_period,
            &staked_name,
            &staked_at_name,
            &last_claimed_name,
        ) {
            Ok(n) => {
                if attribute.key.eq(&staked_name) {
                } else if attribute.key.eq(&staked_at_name) {
                    staked_at = n;
                } else if attribute.key.eq(&last_claimed_name) {
                    last_claimed_at = n;
                } else {
                    others.push(attribute.clone());
                    assert(list_view(others@) =~= before.push(attribute@));
                }
            },
            Err(e) => {
                proof {
                    lemma_fault_in_front(all, i + 1, now, freeze_period);
                }
                return Err(e);
            },
        }
        i += 1;
    }
    assert(all.take(i as int) =~= all);
    if last_claimed_at == 0 {
        last_claimed_at = staked_at;
    }
    let days: u64 = match now.checked_sub(last_claimed_at) {
        Some(seconds) => days_in(seconds),
        None => return Err(ErrorCode::InvalidTimestamp),
    };
    let ghost kept = list_view(others@);
    others.push(self::attribute("staked", "false"));
    others.push(self::attribute("staked_at", "0"));
    others.push(self::attribute("last_claimed_at", "0"));
    assert(list_view(others@) =~= kept + cleared_record());
    Ok((days, Attributes { attribute_list: others }))
}

/// The first step of an unstaking, given the attributes of the asset and accounts that keep the
/// rules.
pub fn open_unstaking(
    accounts: &StakingAccounts,
    authority_bump: u8,
    attributes: Option<Attributes>,
    now: i64,
) -> (r: Result<(UnstakeState, Action), ErrorCode>)
    ensures
        step_view(r) == opening(accounts, authority_bump, optional_view(attributes), now),
{
    let attributes: Attributes = match attributes {
        Some(attributes) => attributes,
        None => return Err(ErrorCode::AssetNotStaked),
    };
    match unstake_terms(&attributes, now, &accounts.config) {
        Ok((days, attributes)) => {
            let signer: Vec<Vec<u8>> = seeds_with_bump(
                UPDATE_AUTHORITY_SEED.as_slice(),
                &accounts.collection.key,
                authority_bump,
            );
            Ok(
                (
                    UnstakeState::Cleared { days, authority_bump },
                    Action::UpdateAssetAttributes { attributes, signer },
                ),
            )
        },
        Err(e) => Err(e),
    }
}

/// The attributes of a collection with one staked asset less; `None` where there is nothing to
/// count down.
pub fn count_down(attributes: Option<Attributes>) -> (r: Option<Attributes>)
    ensures
        optional_view(r) == counted_down(optional_view(attributes)),
{
    let attributes: Attributes = match attributes {
        Some(attributes) => attributes,
        None => return None,
    };
    let total: u32 = match get_attribute_value(&attributes, "total_staked") {
        Some(value) => match parse_u32(value.as_str()) {
            Some(n) => n,
            None => 0,
        },
        None => 0,
    };
    if total == 0 {
        return None;
    }
    let mut list: Vec<Attribute> = attributes.attribute_list;
    update_attribute(&mut list, "total_staked", u32_to_string(total - 1));
    Some(Attributes { attribute_list: list })
}

/// The last step: the rewards for `days` are minted, if there are any. `None` where they cannot
/// be computed.
pub fn pay_out(accounts: &StakingAccounts, days: u64) -> (r: Option<
    Result<(UnstakeState, Action), ErrorCode>,
>)
    ensures
        optional_step_view(r) == payout(accounts, days),
{
    if !can_calculate(days, accounts.config.rewards_bps, accounts.decimals) {
        return None;
    }
    let amount: u64 = match calculate_rewards(
        days,
        accounts.config.rewards_bps,
        accounts.decimals,
    ) {
        Ok(amount) => amount,
        Err(e) => return Some(Err(e)),
    };
    if amount == 0 {
        return Some(Ok((UnstakeState::Finished, Action::Done)));
    }
    let signer: Vec<Vec<u8>> = seeds_with_bump(
        CONFIG_SEED.as_slice(),
        &accounts.collection.key,
        accounts.config.bump,
    );
    Some(
        Ok(
            (
                UnstakeState::Finished,
                Action::MintRewards { amount, decimals: accounts.decimals, signer },
            ),
        ),
    )
}

/// The step after the asset is thawed, given the attributes of the collection. `None` where the
/// rewards are due and cannot be computed.
pub fn count_collection(
    accounts: &StakingAccounts,
    days: u64,
    authority_bump: u8,
    attributes: Option<Attributes>,
) -> (r: Option<Result<(UnstakeState, Action), ErrorCode>>)
    ensures
        optional_step_view(r) == count_step(
            accounts,
            days,
            authority_bump,
            optional_view(attributes),
        ),
{
    match count_down(attributes) {
        Some(attributes) => {
            let signer: Vec<Vec<u8>> = seeds_with_bump(
                UPDATE_AUTHORITY_SEED.as_slice(),
                &accounts.collection.key,
                authority_bump,
            );
            Some(
                Ok(
                    (
                        UnstakeState::Counted { days },
                        Action::UpdateCollectionAttributes { attributes, signer },
                    ),
                ),
            )
        },
        None => pay_out(accounts, days),
    }
}

/// The next step of an unstaking at the time `now`: the state after it and the call to make, or
/// the reason for which the unstaking is refused. `None` where the accounts lead nowhere or the
/// rewards cannot be computed.
pub fn handler(ctx: &Unstake, now: i64, state: UnstakeState) -> (r: Option<
    Result<(UnstakeState, Action), ErrorCode>,
>)
    ensures
        optional_step_view(r) == unstake_step(ctx, now, state),
{
    let accounts: &StakingAccounts = &ctx.accounts;
    match state {
        UnstakeState::Start => match check_accounts(accounts) {
            None => None,
            Some(Err(e)) => Some(Err(e)),
            Some(Ok(bump)) => {
                match attributes_of_asset(&accounts.asset.program, accounts.asset.data.as_slice()) {
                    Some(attributes) => Some(open_unstaking(accounts, bump, attributes, now)),
                    None => None,
                }
            },
        },
        UnstakeState::Cleared { days, authority_bump } => {
            let signer: Vec<Vec<u8>> = seeds_with_bump(
                UPDATE_AUTHORITY_SEED.as_slice(),
                &accounts.collection.key,
                authority_bump,
            );
            Some(Ok((UnstakeState::Thawed { days, authority_bump }, Action::ThawAsset { signer })))
        },
        UnstakeState::Thawed { days, authority_bump } => {
            match attributes_of_collection(
                &accounts.collection.program,
                accounts.collection.data.as_slice(),
            ) {
                Some(attributes) => count_collection(accounts, days, authority_bump, attributes),
                None => None,
            }
        },
        UnstakeState::Counted { days } => pay_out(accounts, days),
        UnstakeState::Finished => Some(Ok((UnstakeState::Finished, Action::Done))),
    }
}

} // verus!
