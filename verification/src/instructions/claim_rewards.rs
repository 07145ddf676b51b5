//! Claiming the rewards of a staked asset.
//!
//! A claim pays for the full days since rewards were last paid, and moves the time up to which
//! they are paid by exactly those days. It runs in steps: each step looks at the accounts and
//! names the call to make next.

use crate::accounts::{
    accounts_verdict, authority_seeds, check_accounts, config_seeds, StakingAccounts,
};
use crate::action::{Action, ActionView};
use crate::address::{seeds_with_bump, CONFIG_SEED, UPDATE_AUTHORITY_SEED};
use crate::attributes::{
    last_value, list_view, optional_view, updated, Attribute, AttributeView, Attributes,
};
use crate::decimal::{i64_to_string, notation, parse_i64, parsed_i64};
use crate::error::ErrorCode;
use crate::plugins::{asset_attributes, asset_readable, attributes_of_asset};
use crate::record::{
    days_in, full_days, last_claimed_key, lemma_keys_differ, paid_until, signed, staked_at_key,
    staked_key, timestamp, timestamps_readable, to_signed,
};
use crate::utils::{
    calculate_rewards, can_calculate, rewards, rewards_computable, update_attribute,
    SECONDS_PER_DAY,
};
use vstd::prelude::*;

verus! {

/// The accounts of a claim.
#[derive(Debug, PartialEq, Eq)]
pub struct ClaimRewards {
    pub accounts: StakingAccounts,
}

/// What a claim pays for.
#[derive(Clone, Copy, Debug, PartialEq, Eq, Structural)]
pub struct ClaimTerms {
    /// The time up to which rewards were paid before.
    pub last_claimed_at: i64,
    /// The number of full days since then.
    pub days: u64,
}

/// How far a claim has come.
#[derive(Debug, PartialEq, Eq)]
pub enum ClaimState {
    /// Nothing has been done yet.
    Start,
    /// The rewards are minted; the asset still says that they are owed.
    Minted { attributes: Attributes, terms: ClaimTerms, authority_bump: u8 },
    /// Nothing is left to do.
    Finished,
}

/// What a [`ClaimState`] says.
pub enum ClaimStateView {
    Start,
    Minted { attributes: Seq<AttributeView>, terms: ClaimTerms, authority_bump: u8 },
    Finished,
}

impl View for ClaimState {
    type V = ClaimStateView;

    open spec fn view(&self) -> ClaimStateView {
        match *self {
            ClaimState::Start => ClaimStateView::Start,
            ClaimState::Minted { attributes, terms, authority_bump } => ClaimStateView::Minted {
                attributes: attributes@,
                terms,
                authority_bump,
            },
            ClaimState::Finished => ClaimStateView::Finished,
        }
    }
}

/// What a step of a claim says.
pub open spec fn step_view(step: Result<(ClaimState, Action), ErrorCode>) -> Result<
    (ClaimStateView, ActionView),
    ErrorCode,
> {
    match step {
        Ok((state, action)) => Ok((state@, action@)),
        Err(e) => Err(e),
    }
}

/// What an optional step of a claim says.
pub open spec fn optional_step_view(
    step: Option<Result<(ClaimState, Action), ErrorCode>>,
) -> Option<Result<(ClaimStateView, ActionView), ErrorCode>> {
    match step {
        Some(s) => Some(step_view(s)),
        None => None,
    }
}

/// What a claim at the time `now` pays for: the asset must be staked, and the time up to which
/// rewards are paid must be positive.
pub open spec fn terms_of_claim(list: Seq<AttributeView>, now: i64) -> Result<
    ClaimTerms,
    ErrorCode,
> {
    let last = paid_until(list);
    if !timestamps_readable(list) {
        Err(ErrorCode::InvalidTimestamp)
    } else if last_value(list, staked_key()) != Some("true"@) {
        Err(ErrorCode::AssetNotStaked)
    } else if last <= 0 {
        Err(ErrorCode::InvalidTimestamp)
    } else if now - last < i64::MIN {
        Err(ErrorCode::NumericalOverflow)
    } else {
        Ok(ClaimTerms { last_claimed_at: last, days: full_days(now - last) as u64 })
    }
}

/// The first step of a claim on an asset with these attributes, in accounts that keep the
/// rules: rewards are minted if a full day has passed. There is no answer where they cannot be
/// computed.
pub open spec fn opening(
    accounts: &StakingAccounts,
    authority_bump: u8,
    attributes: Option<Seq<AttributeView>>,
    now: i64,
) -> Option<Result<(ClaimStateView, ActionView), ErrorCode>> {
    match attributes {
        None => Some(Err(ErrorCode::AssetNotStaked)),
        Some(list) => match terms_of_claim(list, now) {
            Err(e) => Some(Err(e)),
            Ok(terms) => {
                if terms.days == 0 {
                    Some(Ok((ClaimStateView::Finished, ActionView::Done)))
                } else if !rewards_computable(
                    terms.days,
                    accounts.config.rewards_bps,
                    accounts.decimals,
                ) {
                    None
                } else {
                    match rewards(terms.days, accounts.config.rewards_bps, accounts.decimals) {
                        Err(e) => Some(Err(e)),
                        Ok(amount) => Some(
                            Ok(
                                (
                                    ClaimStateView::Minted {
                                        attributes: list,
                                        terms,
                                        authority_bump,
                                    },
                                    ActionView::MintRewards {
                                        amount,
                                        decimals: accounts.decimals,
                                        signer: config_seeds(
                                            accounts.collection.key@,
                                            accounts.config.bump,
                                        ),
                                    },
                                ),
                            ),
                        ),
                    }
                }
            },
        },
    }
}

/// The time up to which rewards are paid once those of `terms` are: later by exactly the days
/// that were paid for.
pub open spec fn next_claim_time(terms: ClaimTerms) -> int {
    terms.last_claimed_at + signed(terms.days * SECONDS_PER_DAY)
}

/// The attributes of an asset once the rewards of `terms` are paid.
pub open spec fn settlement(list: Seq<AttributeView>, terms: ClaimTerms) -> Result<
    Seq<AttributeView>,
    ErrorCode,
> {
    if terms.days * SECONDS_PER_DAY > u64::MAX {
        Err(ErrorCode::NumericalOverflow)
    } else if next_claim_time(terms) < i64::MIN || next_claim_time(terms) > i64::MAX {
        Err(ErrorCode::NumericalOverflow)
    } else {
        Ok(updated(list, last_claimed_key(), notation(next_claim_time(terms))))
    }
}

/// The next step of a claim: the state after it and the call to make, or the reason for which
/// the claim is refused. There is no answer where the accounts lead nowhere or the rewards
/// cannot be computed.
pub open spec fn claim_step(ctx: &ClaimRewards, now: i64, state: ClaimStateView) -> Option<
    Result<(ClaimStateView, ActionView), ErrorCode>,
> {
    let accounts = &ctx.accounts;
    match state {
        ClaimStateView::Start => match accounts_verdict(accounts) {
            None => None,
            Some(Err(e)) => Some(Err(e)),
            Some(Ok(bump)) => {
                if asset_readable(accounts.asset.program@, accounts.asset.data@) {
                    opening(
                        accounts,
                        bump,
                        asset_attributes(accounts.asset.program@, accounts.asset.data@),
                        now,
                    )
                } else {
                    None
                }
            },
        },
        ClaimStateView::Minted { attributes, terms, authority_bump } => Some(
            match settlement(attributes, terms) {
                Err(e) => Err(e),
                Ok(list) => Ok(
                    (
                        ClaimStateView::Finished,
                        ActionView::UpdateAssetAttributes {
                            attributes: list,
                            signer: authority_seeds(accounts.collection.key@, authority_bump),
                        },
                    ),
                ),
            },
        ),
        ClaimStateView::Finished => Some(Ok((ClaimStateView::Finished, ActionView::Done))),
    }
}

/// What a claim at the time `now` on an asset with these attributes pays for.
pub fn claim_terms(attributes: &Attributes, now: i64) -> (r: Result<ClaimTerms, ErrorCode>)
    ensures
        r == terms_of_claim(attributes@, now),
{
    let list: &Vec<Attribute> = &attributes.attribute_list;
    let staked_name: String = "staked".to_owned();
    let staked_at_name: String = "staked_at".to_owned();
    let last_claimed_name: String = "last_claimed_at".to_owned();
    let truth: String = "true".to_owned();
    let mut staked: bool = false;
    let mut staked_at: i64 = 0;
    let mut last_claimed_at: i64 = 0;
    let ghost all = attributes@;
    let mut i: usize = 0;
    proof {
        lemma_keys_differ();
    }
    while i < list.len()
        invariant
            i <= list.len(),
            all == list_view(list@),
            all == attributes@,
            staked_name@ == staked_key(),
            staked_at_name@ == staked_at_key(),
            last_claimed_name@ == last_claimed_key(),
            truth@ == "true"@,
            staked_key() != staked_at_key(),
            staked_key() != last_claimed_key(),
            staked_at_key() != last_claimed_key(),
            timestamps_readable(all.take(i as int)),
            staked == (last_value(all.take(i as int), staked_key()) == Some("true"@)),
            staked_at == timestamp(all.take(i as int), staked_at_key()),
            last_claimed_at == timestamp(all.take(i as int), last_claimed_key()),
        decreases list.len() - i,
    {
        let attribute: &Attribute = &list[i];
        let ghost next = all.take(i + 1);
        proof {
            assert(next.drop_last() =~= all.take(i as int));
            assert(next.last() == attribute@);
            assert(all[i as int] == attribute@);
        }
        if attribute.key.eq(&staked_name) {
            staked = attribute.value.eq(&truth);
        } else if attribute.key.eq(&staked_at_name) {
            match parse_i64(attribute.value.as_str()) {
                Some(n) => {
                    staked_at = n;
                },
                None => return Err(ErrorCode::InvalidTimestamp),
            }
        } else if attribute.key.eq(&last_claimed_name) {
            match parse_i64(attribute.value.as_str()) {
                Some(n) => {
                    last_claimed_at = n;
                },
                None => return Err(ErrorCode::InvalidTimestamp),
            }
        }
        proof {
            assert forall|j: int|
                0 <= j < next.len() && ((#[trigger] next[j]).key == staked_at_key() || next[j].key
                    == last_claimed_key()) implies parsed_i64(next[j].value) is Some by {
                if j < i {
                    assert(next[j] == all.take(i as int)[j]);
                }
            }
        }
        i += 1;
    }
    assert(all.take(i as int) =~= all);
    if !staked {
        return Err(ErrorCode::AssetNotStaked);
    }
    if last_claimed_at == 0 {
        last_claimed_at = staked_at;
    }
    if last_claimed_at <= 0 {
        return Err(ErrorCode::InvalidTimestamp);
    }
    match now.checked_sub(last_claimed_at) {
        Some(seconds) => Ok(ClaimTerms { last_claimed_at, days: days_in(seconds) }),
        None => Err(ErrorCode::NumericalOverflow),
    }
}

/// The first step of a claim, given the attributes of the asset and accounts that keep the
/// rules. `None` where the rewards cannot be computed.
pub fn open_claim(
    accounts: &StakingAccounts,
    authority_bump: u8,
    attributes: Option<Attributes>,
    now: i64,
) -> (r: Option<Result<(ClaimState, Action), ErrorCode>>)
    ensures
        optional_step_view(r) == opening(accounts, authority_bump, optional_view(attributes), now),
{
    let attributes: Attributes = match attributes {
        Some(attributes) => attributes,
        None => return Some(Err(ErrorCode::AssetNotStaked)),
    };
    let terms: ClaimTerms = match claim_terms(&attributes, now) {
        Ok(terms) => terms,
        Err(e) => return Some(Err(e)),
    };
    if terms.days == 0 {
        return Some(Ok((ClaimState::Finished, Action::Done)));
    }
    if !can_calculate(terms.days, accounts.config.rewards_bps, accounts.decimals) {
        return None;
    }
    let amount: u64 = match calculate_rewards(
        terms.days,
        accounts.config.rewards_bps,
        accounts.decimals,
    ) {
        Ok(amount) => amount,
        Err(e) => return Some(Err(e)),
    };
    let signer: Vec<Vec<u8>> = seeds_with_bump(
        CONFIG_SEED.as_slice(),
        &accounts.collection.key,
        accounts.config.bump,
    );
    Some(
        Ok(
            (
                ClaimState::Minted { attributes, terms, authority_bump },
                Action::MintRewards { amount, decimals: accounts.decimals, signer },
            ),
        ),
    )
}

/// The attributes of an asset once the rewards of `terms` are paid.
pub fn settle(attributes: Attributes, terms: ClaimTerms) -> (r: Result<Attributes, ErrorCode>)
    ensures
        match r {
            Ok(a) => settlement(attributes@, terms) == Ok::<Seq<AttributeView>, ErrorCode>(a@),
            Err(e) => settlement(attributes@, terms) == Err::<Seq<AttributeView>, ErrorCode>(e),
        },
{
    let paid: u64 = match terms.days.checked_mul(SECONDS_PER_DAY as u64) {
        Some(paid) => paid,
        None => return Err(ErrorCode::NumericalOverflow),
    };
    let next: i64 = match terms.last_claimed_at.checked_add(to_signed(paid)) {
        Some(next) => next,
        None => return Err(ErrorCode::NumericalOverflow),
    };
    let mut list: Vec<Attribute> = attributes.attribute_list;
    update_attribute(&mut list, "last_claimed_at", i64_to_string(next));
    Ok(Attributes { attribute_list: list })
}

/// The next step of a claim at the time `now`: the state after it and the call to make, or the
/// reason for which the claim is refused. `None` where the accounts lead nowhere or the rewards
/// cannot be computed.
pub fn handler(ctx: &ClaimRewards, now: i64, state: ClaimState) -> (r: Option<
    Result<(ClaimState, Action), ErrorCode>,
>)
    ensures
        optional_step_view(r) == claim_step(ctx, now, state@),
{
    let accounts: &StakingAccounts = &ctx.accounts;
    match state {
        ClaimState::Start => match check_accounts(accounts) {
            None => None,
            Some(Err(e)) => Some(Err(e)),
            Some(Ok(bump)) => {
                match attributes_of_asset(&accounts.asset.program, accounts.asset.data.as_slice()) {
                    Some(attributes) => open_claim(accounts, bump, attributes, now),
                    None => None,
                }
            },
        },
        ClaimState::Minted { attributes, terms, authority_bump } => {
            match settle(attributes, terms) {
                Err(e) => Some(Err(e)),
                Ok(attributes) => {
                    let signer: Vec<Vec<u8>> = seeds_with_bump(
                        UPDATE_AUTHORITY_SEED.as_slice(),
                        &accounts.collection.key,
                        authority_bump,
                    );
                    Some(
                        Ok(
                            (
                                ClaimState::Finished,
                                Action::UpdateAssetAttributes { attributes, signer },
                            ),
                        ),
                    )
                },
            }
        },
        ClaimState::Finished => Some(Ok((ClaimState::Finished, Action::Done))),
    }
}

} // verus!
