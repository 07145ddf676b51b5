//! Laws of claiming rewards.

use crate::accounts::{accounts_verdict, StakingAccounts};
use crate::action::ActionView;
use crate::attributes::{
    at_most_one, has_key, last_value, lemma_first_exists, updated, AttributeView,
};
use crate::decimal::{i64_notation_round_trip, notation, parsed_i64};
use crate::error::ErrorCode;
use crate::instructions::claim_rewards::{
    claim_step, next_claim_time, settlement, terms_of_claim, ClaimRewards, ClaimStateView,
    ClaimTerms,
};
use crate::laws::attribute_lists::{
    pass_finds_update, update_keeps_keys, update_leaves_other_keys,
};
use crate::plugins::{asset_attributes, asset_readable};
use crate::record::{
    last_claimed_key, lemma_keys_differ, paid_until, staked_at_key, staked_key, timestamp,
    timestamps_readable,
};
use crate::utils::{rewards, SECONDS_PER_DAY};
use vstd::prelude::*;

verus! {

/// A claim that is settled pays up to less than a day before now, so that no full day stays
/// unpaid and no part of a day is lost. Where rewards were paid up to a time in the future, the
/// seconds that were paid for are those of a negative interval.
pub proof fn claim_pays_every_full_day(list: Seq<AttributeView>, now: i64)
    requires
        terms_of_claim(list, now) is Ok,
        settlement(list, terms_of_claim(list, now)->Ok_0) is Ok,
        paid_until(list) <= now || terms_of_claim(list, now)->Ok_0.days * SECONDS_PER_DAY
            > i64::MAX,
    ensures
        0 <= now - next_claim_time(terms_of_claim(list, now)->Ok_0) < SECONDS_PER_DAY,
{
}

/// A claim moves the time up to which rewards are paid by exactly the days that it pays for.
/// Where that time is not in the future, a claim that was granted is always settled.
pub proof fn claim_moves_by_paid_days(list: Seq<AttributeView>, now: i64)
    requires
        terms_of_claim(list, now) is Ok,
        paid_until(list) <= now,
    ensures
        settlement(list, terms_of_claim(list, now)->Ok_0) is Ok,
        next_claim_time(terms_of_claim(list, now)->Ok_0) == paid_until(list)
            + terms_of_claim(list, now)->Ok_0.days * SECONDS_PER_DAY,
        paid_until(list) <= next_claim_time(terms_of_claim(list, now)->Ok_0) <= now,
{
}

/// A settlement changes nothing but the time of the last claim.
pub proof fn settlement_touches_only_the_claim_time(list: Seq<AttributeView>, terms: ClaimTerms)
    requires
        settlement(list, terms) is Ok,
    ensures
        ({
            let after = settlement(list, terms)->Ok_0;
            &&& after.len() >= list.len()
            &&& forall|i: int|
                0 <= i < list.len() ==> (#[trigger] after[i]).key == list[i].key && (list[i].key
                    != last_claimed_key() ==> after[i] == list[i])
            &&& forall|i: int|
                list.len() <= i < after.len() ==> (#[trigger] after[i]).key == last_claimed_key()
        }),
{
    update_keeps_keys(list, last_claimed_key(), notation(next_claim_time(terms)));
}

/// What the staking record says after a settlement: the new time of the last claim, and the
/// rest as before.
pub proof fn settlement_is_read_back(list: Seq<AttributeView>, terms: ClaimTerms)
    requires
        at_most_one(list, last_claimed_key()),
        settlement(list, terms) is Ok,
    ensures
        ({
            let after = settlement(list, terms)->Ok_0;
            &&& timestamp(after, last_claimed_key()) == next_claim_time(terms)
            &&& timestamp(after, staked_at_key()) == timestamp(list, staked_at_key())
            &&& last_value(after, staked_key()) == last_value(list, staked_key())
            &&& timestamps_readable(list) ==> timestamps_readable(after)
            &&& at_most_one(after, last_claimed_key())
        }),
{
    lemma_keys_differ();
    let next = next_claim_time(terms) as i64;
    let text = notation(next as int);
    let after = updated(list, last_claimed_key(), text);
    i64_notation_round_trip(next);
    pass_finds_update(list, last_claimed_key(), text);
    update_leaves_other_keys(list, last_claimed_key(), text, staked_at_key());
    update_leaves_other_keys(list, last_claimed_key(), text, staked_key());
    update_keeps_keys(list, last_claimed_key(), text);
    if has_key(list, last_claimed_key()) {
        lemma_first_exists(list, last_claimed_key());
    }
    if timestamps_readable(list) {
        assert forall|i: int|
            0 <= i < after.len() && ((#[trigger] after[i]).key == staked_at_key() || after[i].key
                == last_claimed_key()) implies parsed_i64(after[i].value) is Some by {
            if i < list.len() && after[i] == list[i] {
                assert(parsed_i64(list[i].value) is Some);
            } else {
                assert(after[i].value == text);
            }
        }
    }
}

/// A second claim at the same time pays for no day.
pub proof fn second_claim_pays_nothing(list: Seq<AttributeView>, now: i64)
    requires
        at_most_one(list, last_claimed_key()),
        terms_of_claim(list, now) is Ok,
        settlement(list, terms_of_claim(list, now)->Ok_0) is Ok,
        0 < next_claim_time(terms_of_claim(list, now)->Ok_0) <= now,
    ensures
        ({
            let terms = terms_of_claim(list, now)->Ok_0;
            terms_of_claim(settlement(list, terms)->Ok_0, now) == Ok::<ClaimTerms, ErrorCode>(
                ClaimTerms { last_claimed_at: next_claim_time(terms) as i64, days: 0 },
            )
        }),
{
    let terms = terms_of_claim(list, now)->Ok_0;
    settlement_is_read_back(list, terms);
    claim_pays_every_full_day(list, now);
}

/// Two claims pay for as many days as one claim at the time of the second, and leave the same
/// time up to which rewards are paid. Both times lie on one side of the time up to which
/// rewards were paid before.
pub proof fn two_claims_pay_as_one(list: Seq<AttributeView>, now: i64, later: i64)
    requires
        at_most_one(list, last_claimed_key()),
        terms_of_claim(list, now) is Ok,
        terms_of_claim(list, later) is Ok,
        settlement(list, terms_of_claim(list, now)->Ok_0) is Ok,
        0 < next_claim_time(terms_of_claim(list, now)->Ok_0) <= later,
        (paid_until(list) <= now) == (paid_until(list) <= later),
    ensures
        ({
            let first = terms_of_claim(list, now)->Ok_0;
            let between = settlement(list, first)->Ok_0;
            let second = terms_of_claim(between, later);
            let whole = terms_of_claim(list, later)->Ok_0;
            &&& second is Ok
            &&& first.days + second->Ok_0.days == whole.days
            &&& next_claim_time(second->Ok_0) == next_claim_time(whole)
        }),
{
    let first = terms_of_claim(list, now)->Ok_0;
    settlement_is_read_back(list, first);
}

/// Whether the account of the asset holds these attributes, in accounts that keep the rules.
pub open spec fn asset_holds(accounts: &StakingAccounts, attributes: Seq<AttributeView>) -> bool {
    let asset = accounts.asset;
    &&& accounts_verdict(accounts) is Some
    &&& accounts_verdict(accounts)->0 is Ok
    &&& asset_readable(asset.program@, asset.data@)
    &&& asset_attributes(asset.program@, asset.data@) == Some(attributes)
}

/// Once the asset holds the attributes that a claim asked to be stored, the same claim finds
/// nothing to do.
pub proof fn a_repeated_claim_does_nothing(before: &ClaimRewards, after: &ClaimRewards, now: i64)
    requires
        claim_step(before, now, ClaimStateView::Start) matches Some(Ok((
            ClaimStateView::Minted { attributes, terms, .. },
            _,
        ))) && at_most_one(attributes, last_claimed_key()) && 0 < next_claim_time(terms) <= now
            && settlement(attributes, terms) is Ok && asset_holds(
            &after.accounts,
            settlement(attributes, terms)->Ok_0,
        ),
    ensures
        claim_step(after, now, ClaimStateView::Start) == Some(
            Ok::<(ClaimStateView, ActionView), ErrorCode>(
                (ClaimStateView::Finished, ActionView::Done),
            ),
        ),
{
    if let Some(Ok((ClaimStateView::Minted { attributes, .. }, _))) = claim_step(
        before,
        now,
        ClaimStateView::Start,
    ) {
        second_claim_pays_nothing(attributes, now);
    }
}

/// An asset that is not staked earns nothing: a claim on it is refused.
pub proof fn unstaked_claim_is_refused(list: Seq<AttributeView>, now: i64)
    requires
        last_value(list, staked_key()) != Some("true"@),
    ensures
        terms_of_claim(list, now) is Err,
        timestamps_readable(list) ==> terms_of_claim(list, now) == Err::<ClaimTerms, ErrorCode>(
            ErrorCode::AssetNotStaked,
        ),
{
}

/// The number of calls that a claim makes at most from here on.
pub open spec fn calls_left(state: ClaimStateView) -> nat {
    match state {
        ClaimStateView::Start => 2,
        ClaimStateView::Minted { .. } => 1,
        ClaimStateView::Finished => 0,
    }
}

/// A claim comes to an end: each step leaves fewer calls to make, and when none is left nothing
/// more is asked for.
pub proof fn claim_comes_to_an_end(ctx: &ClaimRewards, now: i64, state: ClaimStateView)
    requires
        claim_step(ctx, now, state) is Some,
        claim_step(ctx, now, state)->0 is Ok,
    ensures
        ({
            let (next, action) = claim_step(ctx, now, state)->0->Ok_0;
            &&& state is Finished ==> next is Finished && action is Done
            &&& !(state is Finished) ==> calls_left(next) < calls_left(state)
        }),
{
}

/// A claim mints at most once, in its first step, for the days that it then marks as paid: what
/// it mints is the reward for the terms that the second step settles.
pub proof fn claim_mints_what_it_settles(ctx: &ClaimRewards, now: i64, state: ClaimStateView)
    requires
        claim_step(ctx, now, state) is Some,
        claim_step(ctx, now, state)->0 is Ok,
        claim_step(ctx, now, state)->0->Ok_0.1 is MintRewards,
    ensures
        state is Start,
        ({
            let (next, action) = claim_step(ctx, now, state)->0->Ok_0;
            let config = ctx.accounts.config;
            &&& next matches ClaimStateView::Minted { attributes, terms, .. }
            &&& terms_of_claim(attributes, now) == Ok::<ClaimTerms, ErrorCode>(terms)
            &&& terms.days > 0
            &&& rewards(terms.days, config.rewards_bps, ctx.accounts.decimals) == Ok::<
                u64,
                ErrorCode,
            >(action->MintRewards_amount)
        }),
{
}

} // verus!
