//! Laws of the steps of a claim: what is minted and what is stored, from the attributes that
//! the asset holds.

use crate::accounts::{accounts_verdict, StakingAccounts};
use crate::action::ActionView;
use crate::attributes::AttributeView;
use crate::decimal::notation;
use crate::error::ErrorCode;
use crate::instructions::claim_rewards::{
    claim_step, opening, settlement, terms_of_claim, ClaimRewards, ClaimStateView, ClaimTerms,
};
use crate::laws::access::{seeds_of_authority_are, seeds_of_config_are};
use crate::laws::attribute_lists::update_sets_the_first;
use crate::laws::claiming::asset_holds;
use crate::laws::payments::{reward_is_a_share_of_a_token, rewards_are_computable};
use crate::laws::times::{
    earning_starts_with_the_last_claim, full_days_are_counted, readable_times_are_told,
    the_last_word_on_staking_counts,
};
use crate::laws::vocabulary::{
    authority_signer, config_signer, differs_by, earned, earns_from, full_days_between, has_reward,
    is_reward, says_staked, tells, times_parse,
};
use crate::plugins::{asset_attributes, asset_readable};
use vstd::prelude::*;

verus! {

/// What a claim pays for: a staked asset that earns from a positive time on is paid for the full
/// days since.
pub proof fn claim_counts_the_full_days(
    list: Seq<AttributeView>,
    now: i64,
    since: i64,
    claimed: i64,
    days: int,
)
    requires
        tells(list, since, claimed),
        says_staked(list),
        earns_from(since, claimed) > 0,
        now - earns_from(since, claimed) >= i64::MIN,
        full_days_between(earns_from(since, claimed), now, days),
    ensures
        terms_of_claim(list, now) is Ok,
        terms_of_claim(list, now)->Ok_0.days == days,
        terms_of_claim(list, now)->Ok_0.last_claimed_at == earns_from(since, claimed),
{
    readable_times_are_told(list);
    the_last_word_on_staking_counts(list);
    earning_starts_with_the_last_claim(list, since, claimed);
    full_days_are_counted(earns_from(since, claimed), now, days);
}

/// Why a claim is refused: a time cannot be read, the asset is not staked, it does not earn from
/// a positive time on, or the clock is too far behind that time. There is no other reason.
pub proof fn claims_are_refused_for_a_reason(
    list: Seq<AttributeView>,
    now: i64,
    since: i64,
    claimed: i64,
)
    ensures
        !times_parse(list) ==> terms_of_claim(list, now) == Err::<ClaimTerms, ErrorCode>(
            ErrorCode::InvalidTimestamp,
        ),
        times_parse(list) && !says_staked(list) ==> terms_of_claim(list, now) == Err::<
            ClaimTerms,
            ErrorCode,
        >(ErrorCode::AssetNotStaked),
        says_staked(list) && tells(list, since, claimed) && earns_from(since, claimed) <= 0
            ==> terms_of_claim(list, now) == Err::<ClaimTerms, ErrorCode>(
            ErrorCode::InvalidTimestamp,
        ),
        says_staked(list) && tells(list, since, claimed) && earns_from(since, claimed) > 0 && now
            - earns_from(since, claimed) < i64::MIN ==> terms_of_claim(list, now) == Err::<
            ClaimTerms,
            ErrorCode,
        >(ErrorCode::NumericalOverflow),
{
    the_last_word_on_staking_counts(list);
    if tells(list, since, claimed) {
        earning_starts_with_the_last_claim(list, since, claimed);
    }
    if times_parse(list) {
        readable_times_are_told(list);
    }
}

/// The time up to which rewards are paid once `days` days from `from` on are: 86400 seconds later
/// for each day, in the 64-bit range.
pub open spec fn paid_time(from: i64, days: int) -> int {
    if days * 86400 <= 0x7fff_ffff_ffff_ffff {
        from + days * 86400
    } else {
        from + days * 86400 - 0x1_0000_0000_0000_0000
    }
}

/// A settlement writes the time that was reached into `last_claimed_at` and changes nothing else;
/// it is refused where that time, or the seconds paid for, leave the range of 64 bits.
pub proof fn settlement_stores_the_time_reached(list: Seq<AttributeView>, terms: ClaimTerms)
    ensures
        ({
            let reached = paid_time(terms.last_claimed_at, terms.days as int);
            let in_range = terms.days * 86400 <= 0xffff_ffff_ffff_ffff && i64::MIN <= reached
                <= i64::MAX;
            &&& in_range ==> settlement(list, terms) is Ok && differs_by(
                list,
                settlement(list, terms)->Ok_0,
                "last_claimed_at"@,
                notation(reached),
            )
            &&& !in_range ==> settlement(list, terms) == Err::<Seq<AttributeView>, ErrorCode>(
                ErrorCode::NumericalOverflow,
            )
        }),
{
    let reached = paid_time(terms.last_claimed_at, terms.days as int);
    update_sets_the_first(list, "last_claimed_at"@, notation(reached), 0);
}

/// The first step of a claim mints the reward for the full days since the last claim, signed by
/// the configuration, if there is such a day.
pub proof fn claim_opens_with_the_reward(
    accounts: &StakingAccounts,
    bump: u8,
    list: Seq<AttributeView>,
    now: i64,
    since: i64,
    claimed: i64,
    days: int,
)
    requires
        tells(list, since, claimed),
        says_staked(list),
        earns_from(since, claimed) > 0,
        now - earns_from(since, claimed) >= i64::MIN,
        full_days_between(earns_from(since, claimed), now, days),
    ensures
        ({
            let opened = opening(accounts, bump, Some(list), now);
            let bps = accounts.config.rewards_bps;
            let decimals = accounts.decimals;
            let owed = earned(days, bps, decimals);
            &&& days == 0 ==> opened == Some(
                Ok::<(ClaimStateView, ActionView), ErrorCode>(
                    (ClaimStateView::Finished, ActionView::Done),
                ),
            )
            &&& days > 0 && !has_reward(days, bps, decimals) ==> opened is None
            &&& days > 0 && has_reward(days, bps, decimals) && owed > 0xffff_ffff_ffff_ffff
                ==> opened == Some(
                Err::<(ClaimStateView, ActionView), ErrorCode>(ErrorCode::InvalidRewardsBps),
            )
            &&& days > 0 && has_reward(days, bps, decimals) && owed <= 0xffff_ffff_ffff_ffff ==> {
                &&& opened matches Some(Ok((state, action)))
                &&& state == ClaimStateView::Minted {
                    attributes: list,
                    terms: ClaimTerms {
                        last_claimed_at: earns_from(since, claimed),
                        days: days as u64,
                    },
                    authority_bump: bump,
                }
                &&& action matches ActionView::MintRewards { amount, decimals: scale, signer }
                &&& is_reward(amount, days, bps, decimals)
                &&& scale == decimals
                &&& signer == config_signer(accounts.collection.key@, accounts.config.bump)
            }
        }),
{
    claim_counts_the_full_days(list, now, since, claimed, days);
    reward_is_a_share_of_a_token(days as u64, accounts.config.rewards_bps, accounts.decimals);
    rewards_are_computable(days as u64, accounts.config.rewards_bps, accounts.decimals);
    seeds_of_config_are(accounts.collection.key@, accounts.config.bump);
}

/// A claim on an asset without attributes, and one without terms, is refused in its first step.
pub proof fn claim_without_terms_is_refused(
    accounts: &StakingAccounts,
    bump: u8,
    list: Seq<AttributeView>,
    now: i64,
)
    ensures
        opening(accounts, bump, None, now) == Some(
            Err::<(ClaimStateView, ActionView), ErrorCode>(ErrorCode::AssetNotStaked),
        ),
        terms_of_claim(list, now) matches Err(e) ==> opening(accounts, bump, Some(list), now)
            == Some(Err::<(ClaimStateView, ActionView), ErrorCode>(e)),
{
}

/// A claim from its start to its end. In accounts that keep the rules, a staked asset that earns
/// from a positive time on is paid for the full days since. The first step mints exactly their
/// reward; the next one, whenever and in whatever accounts it is taken, stores the asset's own
/// attributes with `last_claimed_at` moved on by exactly those days, signed by the update
/// authority; then nothing is left to do. Without a full day nothing is done at all.
pub proof fn claim_mints_and_marks_the_days(
    ctx: &ClaimRewards,
    now: i64,
    then: &ClaimRewards,
    later: i64,
    list: Seq<AttributeView>,
    since: i64,
    claimed: i64,
    days: int,
)
    requires
        asset_holds(&ctx.accounts, list),
        tells(list, since, claimed),
        says_staked(list),
        earns_from(since, claimed) > 0,
        now - earns_from(since, claimed) >= i64::MIN,
        full_days_between(earns_from(since, claimed), now, days),
    ensures
        ({
            let first = claim_step(ctx, now, ClaimStateView::Start);
            let bps = ctx.accounts.config.rewards_bps;
            let decimals = ctx.accounts.decimals;
            let owed = earned(days, bps, decimals);
            let reached = paid_time(earns_from(since, claimed), days);
            &&& days == 0 ==> first == Some(
                Ok::<(ClaimStateView, ActionView), ErrorCode>(
                    (ClaimStateView::Finished, ActionView::Done),
                ),
            )
            &&& days > 0 && !has_reward(days, bps, decimals) ==> first is None
            &&& days > 0 && has_reward(days, bps, decimals) && owed > 0xffff_ffff_ffff_ffff
                ==> first == Some(
                Err::<(ClaimStateView, ActionView), ErrorCode>(ErrorCode::InvalidRewardsBps),
            )
            &&& days > 0 && has_reward(days, bps, decimals) && owed <= 0xffff_ffff_ffff_ffff ==> {
                &&& first matches Some(Ok((minted, mint)))
                &&& mint matches ActionView::MintRewards { amount, decimals: scale, signer }
                &&& is_reward(amount, days, bps, decimals)
                &&& scale == decimals
                &&& signer == config_signer(
                    ctx.accounts.collection.key@,
                    ctx.accounts.config.bump,
                )
                &&& i64::MIN <= reached <= i64::MAX ==> {
                    &&& claim_step(then, later, minted) matches Some(Ok((ended, update)))
                    &&& ended is Finished
                    &&& update matches ActionView::UpdateAssetAttributes { attributes, signer }
                    &&& differs_by(list, attributes, "last_claimed_at"@, notation(reached))
                    &&& accounts_verdict(&ctx.accounts) matches Some(Ok(bump))
                    &&& signer == authority_signer(then.accounts.collection.key@, bump)
                }
                &&& !(i64::MIN <= reached <= i64::MAX) ==> claim_step(then, later, minted) == Some(
                    Err::<(ClaimStateView, ActionView), ErrorCode>(ErrorCode::NumericalOverflow),
                )
            }
        }),
        earns_from(since, claimed) <= now ==> paid_time(earns_from(since, claimed), days)
            == earns_from(since, claimed) + days * 86400 <= now,
{
    let bump = accounts_verdict(&ctx.accounts)->0->Ok_0;
    let terms = ClaimTerms { last_claimed_at: earns_from(since, claimed), days: days as u64 };
    claim_counts_the_full_days(list, now, since, claimed, days);
    claim_opens_with_the_reward(&ctx.accounts, bump, list, now, since, claimed, days);
    settlement_stores_the_time_reached(list, terms);
    seeds_of_authority_are(then.accounts.collection.key@, bump);
}

/// What is minted is always settled: from a state that has minted, the next step stores the
/// attributes that the state carries with `last_claimed_at` moved on by the days that it carries.
pub proof fn minted_days_are_marked(
    ctx: &ClaimRewards,
    now: i64,
    list: Seq<AttributeView>,
    terms: ClaimTerms,
    bump: u8,
)
    ensures
        ({
            let state = ClaimStateView::Minted { attributes: list, terms, authority_bump: bump };
            let next = claim_step(ctx, now, state);
            let reached = paid_time(terms.last_claimed_at, terms.days as int);
            let in_range = terms.days * 86400 <= 0xffff_ffff_ffff_ffff && i64::MIN <= reached
                <= i64::MAX;
            &&& in_range ==> {
                &&& next matches Some(Ok((ended, update)))
                &&& ended is Finished
                &&& update matches ActionView::UpdateAssetAttributes { attributes, signer }
                &&& differs_by(list, attributes, "last_claimed_at"@, notation(reached))
                &&& signer == authority_signer(ctx.accounts.collection.key@, bump)
            }
            &&& !in_range ==> next == Some(
                Err::<(ClaimStateView, ActionView), ErrorCode>(ErrorCode::NumericalOverflow),
            )
        }),
{
    settlement_stores_the_time_reached(list, terms);
    seeds_of_authority_are(ctx.accounts.collection.key@, bump);
}

/// A claim that has come to its end does nothing more.
pub proof fn finished_claims_rest(ctx: &ClaimRewards, now: i64)
    ensures
        claim_step(ctx, now, ClaimStateView::Finished) == Some(
            Ok::<(ClaimStateView, ActionView), ErrorCode>(
                (ClaimStateView::Finished, ActionView::Done),
            ),
        ),
{
}

/// When a claim is refused in its first step, and with what: accounts that break a rule are
/// refused for that rule; there is no answer where the accounts give none or the data of the
/// asset leads out of it; an asset without attributes, one that is not staked and one with an
/// unusable time are refused.
pub proof fn claim_is_refused_at_its_start(
    ctx: &ClaimRewards,
    now: i64,
    list: Seq<AttributeView>,
    since: i64,
    claimed: i64,
)
    ensures
        ({
            let accounts = &ctx.accounts;
            let first = claim_step(ctx, now, ClaimStateView::Start);
            let last = earns_from(since, claimed);
            let accepted = accounts_verdict(accounts) matches Some(Ok(_));
            let readable = asset_readable(accounts.asset.program@, accounts.asset.data@);
            let held = asset_attributes(accounts.asset.program@, accounts.asset.data@);
            &&& accounts_verdict(accounts) is None ==> first is None
            &&& accounts_verdict(accounts) matches Some(Err(e)) ==> first == Some(
                Err::<(ClaimStateView, ActionView), ErrorCode>(e),
            )
            &&& accepted && !readable ==> first is None
            &&& accepted && readable && held is None ==> first == Some(
                Err::<(ClaimStateView, ActionView), ErrorCode>(ErrorCode::AssetNotStaked),
            )
            &&& asset_holds(accounts, list) && !times_parse(list) ==> first == Some(
                Err::<(ClaimStateView, ActionView), ErrorCode>(ErrorCode::InvalidTimestamp),
            )
            &&& asset_holds(accounts, list) && times_parse(list) && !says_staked(list)
                ==> first == Some(
                Err::<(ClaimStateView, ActionView), ErrorCode>(ErrorCode::AssetNotStaked),
            )
            &&& asset_holds(accounts, list) && says_staked(list) && tells(list, since, claimed)
                && last <= 0 ==> first == Some(
                Err::<(ClaimStateView, ActionView), ErrorCode>(ErrorCode::InvalidTimestamp),
            )
            &&& asset_holds(accounts, list) && says_staked(list) && tells(list, since, claimed)
                && last > 0 && now - last < i64::MIN ==> first == Some(
                Err::<(ClaimStateView, ActionView), ErrorCode>(ErrorCode::NumericalOverflow),
            )
        }),
{
    claims_are_refused_for_a_reason(list, now, since, claimed);
}

} // verus!
