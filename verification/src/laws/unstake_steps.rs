//! Laws of the steps of an unstaking: when it is granted, what is stored, and what is minted,
//! from the attributes that the asset and the collection hold.

use crate::accounts::{accounts_verdict, StakingAccounts};
use crate::action::ActionView;
use crate::attributes::AttributeView;
use crate::decimal::{notation, parsed_i64, parsed_u32};
use crate::error::ErrorCode;
use crate::instructions::unstake::{
    cleared, count_step, counted_down, days_owed, fault, first_fault, opening, payout, unstake_step,
    Unstake, UnstakeState,
};
use crate::laws::access::{seeds_of_authority_are, seeds_of_config_are};
use crate::laws::attribute_lists::{lookup_finds_the_first, update_sets_the_first};
use crate::laws::claiming::asset_holds;
use crate::laws::payments::{reward_is_a_share_of_a_token, rewards_are_computable};
use crate::laws::times::{
    earning_starts_with_the_last_claim, full_days_are_counted, passed_days_are_counted,
};
use crate::laws::unstaking::{lemma_faultless, lemma_first_fault_is};
use crate::laws::vocabulary::{
    absent, all_let_go, authority_signer, config_signer, days_have_passed, earned, earns_from,
    full_days_between, has_reward, is_reward, lets_go, stands_first, tells, without_record,
};
use crate::plugins::{
    asset_attributes, asset_readable, collection_attributes, collection_readable,
};
use crate::record::{is_record_key, lemma_keys_differ};
use vstd::prelude::*;

verus! {

/// An asset may be unstaked if none of its attributes stands against it, whatever the time of
/// the last claim is. It is then owed the full days since the last claim, or since staking
/// where there was none.
pub proof fn unstaking_counts_the_full_days(
    list: Seq<AttributeView>,
    now: i64,
    freeze_period: i64,
    since: i64,
    claimed: i64,
    days: int,
)
    requires
        all_let_go(list, now, freeze_period),
        tells(list, since, claimed),
        i64::MIN <= now - earns_from(since, claimed) <= i64::MAX,
        full_days_between(earns_from(since, claimed), now, days),
    ensures
        days_owed(list, now, freeze_period) is Ok,
        days_owed(list, now, freeze_period)->Ok_0 == days,
{
    assert forall|i: int| 0 <= i < list.len() implies fault(#[trigger] list[i], now, freeze_period)
        is None by {
        lemma_lets_go(list[i], now, freeze_period);
    }
    lemma_faultless(list, now, freeze_period);
    earning_starts_with_the_last_claim(list, since, claimed);
    full_days_are_counted(earns_from(since, claimed), now, days);
}

/// What an attribute that stands against unstaking is answered.
pub open spec fn objection(attribute: AttributeView, now: i64, e: ErrorCode) -> bool {
    &&& attribute.key == "staked"@ ==> e == ErrorCode::AssetNotStaked
    &&& attribute.key == "last_claimed_at"@ ==> e == ErrorCode::InvalidTimestamp
    &&& attribute.key == "staked_at"@ ==> match parsed_i64(attribute.value) {
        None => e == ErrorCode::InvalidTimestamp,
        Some(since) => if i64::MIN <= now - since <= i64::MAX {
            e == ErrorCode::FreezePeriodNotElapsed
        } else {
            e == ErrorCode::InvalidTimestamp
        },
    }
}

/// The first attribute that stands against unstaking decides why it is refused.
pub proof fn the_first_objection_decides(
    list: Seq<AttributeView>,
    now: i64,
    freeze_period: i64,
    n: int,
)
    requires
        0 <= n < list.len(),
        all_let_go(list.take(n), now, freeze_period),
        !lets_go(list[n], now, freeze_period),
    ensures
        days_owed(list, now, freeze_period) is Err,
        objection(list[n], now, days_owed(list, now, freeze_period)->Err_0),
{
    lemma_keys_differ();
    assert forall|i: int| 0 <= i < n implies fault(#[trigger] list[i], now, freeze_period)
        is None by {
        assert(list.take(n)[i] == list[i]);
        lemma_lets_go(list[i], now, freeze_period);
    }
    lemma_lets_go(list[n], now, freeze_period);
    lemma_first_fault_is(list, now, freeze_period, n);
}

/// Where no attribute stands against unstaking, it is refused only if the seconds since the
/// last claim leave the range of 64 bits.
pub proof fn only_the_range_is_left_to_object(
    list: Seq<AttributeView>,
    now: i64,
    freeze_period: i64,
    since: i64,
    claimed: i64,
)
    requires
        all_let_go(list, now, freeze_period),
        tells(list, since, claimed),
        !(i64::MIN <= now - earns_from(since, claimed) <= i64::MAX),
    ensures
        days_owed(list, now, freeze_period) == Err::<u64, ErrorCode>(ErrorCode::InvalidTimestamp),
{
    assert forall|i: int| 0 <= i < list.len() implies fault(#[trigger] list[i], now, freeze_period)
        is None by {
        lemma_lets_go(list[i], now, freeze_period);
    }
    lemma_faultless(list, now, freeze_period);
    earning_starts_with_the_last_claim(list, since, claimed);
}

/// The freeze period stands in the way only where some attribute `staked_at` lies less than
/// that many days back; the time of the last claim never does.
pub proof fn only_staking_starts_the_freeze_period(
    list: Seq<AttributeView>,
    now: i64,
    freeze_period: i64,
)
    requires
        days_owed(list, now, freeze_period) == Err::<u64, ErrorCode>(
            ErrorCode::FreezePeriodNotElapsed,
        ),
    ensures
        exists|i: int|
            0 <= i < list.len() && (#[trigger] list[i]).key == "staked_at"@ && parsed_i64(
                list[i].value,
            ) is Some && !days_have_passed(parsed_i64(list[i].value)->0, now, freeze_period),
{
    let i = lemma_first_fault_stands(list, now, freeze_period);
    lemma_keys_differ();
    passed_days_are_counted(parsed_i64(list[i].value)->0, now, freeze_period);
}

/// Unstaking leaves the attributes outside of the staking record as they are, in their order,
/// and puts the record of an asset that is not staked behind them.
pub proof fn unstaking_replaces_the_record(list: Seq<AttributeView>)
    ensures
        cleared(list) == without_record(list),
{
    let other = |a: AttributeView| !is_record_key(a.key);
    let plain = |a: AttributeView|
        a.key != "staked"@ && a.key != "staked_at"@ && a.key != "last_claimed_at"@;
    assert forall|a: AttributeView| #[trigger] other(a) == plain(a) by {}
    lemma_same_filter(list, other, plain);
    assert(cleared(list) =~= without_record(list));
}

/// The first step of an unstaking that may go on: it stores the asset's own attributes with a
/// cleared staking record, signed by the update authority, and keeps in mind the full days that
/// are owed. One that may not is refused.
pub proof fn unstaking_opens_with_the_record(
    accounts: &StakingAccounts,
    bump: u8,
    list: Seq<AttributeView>,
    now: i64,
    since: i64,
    claimed: i64,
    days: int,
)
    requires
        all_let_go(list, now, accounts.config.freeze_period),
        tells(list, since, claimed),
        i64::MIN <= now - earns_from(since, claimed) <= i64::MAX,
        full_days_between(earns_from(since, claimed), now, days),
    ensures
        opening(accounts, bump, Some(list), now) == Ok::<(UnstakeState, ActionView), ErrorCode>(
            (
                UnstakeState::Cleared { days: days as u64, authority_bump: bump },
                ActionView::UpdateAssetAttributes {
                    attributes: without_record(list),
                    signer: authority_signer(accounts.collection.key@, bump),
                },
            ),
        ),
        0 <= days <= 0xffff_ffff_ffff_ffff,
{
    unstaking_counts_the_full_days(
        list,
        now,
        accounts.config.freeze_period,
        since,
        claimed,
        days,
    );
    unstaking_replaces_the_record(list);
    seeds_of_authority_are(accounts.collection.key@, bump);
}

/// An unstaking of an asset without attributes is refused in its first step, as is one that an
/// attribute stands against, for the reason that the first such attribute gives, and one whose
/// days cannot be counted. The freeze period is named only where an attribute `staked_at` lies
/// less than that many days back.
pub proof fn unstaking_is_refused_for_a_reason(
    accounts: &StakingAccounts,
    bump: u8,
    list: Seq<AttributeView>,
    now: i64,
    since: i64,
    claimed: i64,
    n: int,
)
    ensures
        ({
            let opened = opening(accounts, bump, Some(list), now);
            let freeze_period = accounts.config.freeze_period;
            &&& opening(accounts, bump, None, now) == Err::<(UnstakeState, ActionView), ErrorCode>(
                ErrorCode::AssetNotStaked,
            )
            &&& 0 <= n < list.len() && all_let_go(list.take(n), now, freeze_period) && !lets_go(
                list[n],
                now,
                freeze_period,
            ) ==> opened is Err && objection(list[n], now, opened->Err_0)
            &&& all_let_go(list, now, freeze_period) && tells(list, since, claimed) && !(i64::MIN
                <= now - earns_from(since, claimed) <= i64::MAX) ==> opened == Err::<
                (UnstakeState, ActionView),
                ErrorCode,
            >(ErrorCode::InvalidTimestamp)
            &&& opened == Err::<(UnstakeState, ActionView), ErrorCode>(
                ErrorCode::FreezePeriodNotElapsed,
            ) ==> exists|i: int|
                0 <= i < list.len() && (#[trigger] list[i]).key == "staked_at"@ && parsed_i64(
                    list[i].value,
                ) is Some && !days_have_passed(parsed_i64(list[i].value)->0, now, freeze_period)
        }),
{
    let freeze_period = accounts.config.freeze_period;
    if 0 <= n < list.len() && all_let_go(list.take(n), now, freeze_period) && !lets_go(
        list[n],
        now,
        freeze_period,
    ) {
        the_first_objection_decides(list, now, freeze_period, n);
    }
    if all_let_go(list, now, freeze_period) && tells(list, since, claimed) && !(i64::MIN <= now
        - earns_from(since, claimed) <= i64::MAX) {
        only_the_range_is_left_to_object(list, now, freeze_period, since, claimed);
    }
    if days_owed(list, now, freeze_period) == Err::<u64, ErrorCode>(
        ErrorCode::FreezePeriodNotElapsed,
    ) {
        only_staking_starts_the_freeze_period(list, now, freeze_period);
    }
}

/// In accounts that keep the rules, an asset that no attribute keeps staked is unstaked,
/// whatever the time of its last claim: its own attributes are stored with a cleared staking
/// record. The days to be paid are the full days since the last claim, or since staking where
/// there was none. The asset is thawed next, and the days stay what they are.
pub proof fn unstaking_starts_as_it_must(
    ctx: &Unstake,
    now: i64,
    then: &Unstake,
    later: i64,
    list: Seq<AttributeView>,
    since: i64,
    claimed: i64,
    days: int,
)
    requires
        asset_holds(&ctx.accounts, list),
        all_let_go(list, now, ctx.accounts.config.freeze_period),
        tells(list, since, claimed),
        i64::MIN <= now - earns_from(since, claimed) <= i64::MAX,
        full_days_between(earns_from(since, claimed), now, days),
    ensures
        ({
            let bump = accounts_verdict(&ctx.accounts)->0->Ok_0;
            let owed = days as u64;
            &&& owed == days
            &&& unstake_step(ctx, now, UnstakeState::Start) == Some(
                Ok::<(UnstakeState, ActionView), ErrorCode>(
                    (
                        UnstakeState::Cleared { days: owed, authority_bump: bump },
                        ActionView::UpdateAssetAttributes {
                            attributes: without_record(list),
                            signer: authority_signer(ctx.accounts.collection.key@, bump),
                        },
                    ),
                ),
            )
            &&& unstake_step(
                then,
                later,
                UnstakeState::Cleared { days: owed, authority_bump: bump },
            ) == Some(
                Ok::<(UnstakeState, ActionView), ErrorCode>(
                    (
                        UnstakeState::Thawed { days: owed, authority_bump: bump },
                        ActionView::ThawAsset {
                            signer: authority_signer(then.accounts.collection.key@, bump),
                        },
                    ),
                ),
            )
        }),
{
    let bump = accounts_verdict(&ctx.accounts)->0->Ok_0;
    unstaking_opens_with_the_record(&ctx.accounts, bump, list, now, since, claimed, days);
    seeds_of_authority_are(then.accounts.collection.key@, bump);
}

/// The case of an asset that is staked, has a staking time of at least the freeze period ago,
/// and times between 0 and now: nothing else is asked of it, so it is always unstaked, and paid
/// for the full days in the seconds since its last claim.
pub proof fn a_thawing_asset_is_always_unstaked(
    ctx: &Unstake,
    now: i64,
    list: Seq<AttributeView>,
    since: i64,
    claimed: i64,
)
    requires
        asset_holds(&ctx.accounts, list),
        tells(list, since, claimed),
        forall|i: int|
            0 <= i < list.len() && (#[trigger] list[i]).key == "staked"@ ==> list[i].value
                == "true"@,
        forall|i: int|
            0 <= i < list.len() && (#[trigger] list[i]).key == "staked_at"@ ==> 0 <= parsed_i64(
                list[i].value,
            )->0 <= now && now - parsed_i64(list[i].value)->0
                >= ctx.accounts.config.freeze_period * 86400,
        forall|i: int|
            0 <= i < list.len() && (#[trigger] list[i]).key == "last_claimed_at"@ ==> 0
                <= parsed_i64(list[i].value)->0 <= now,
        0 <= earns_from(since, claimed) <= now,
    ensures
        ({
            &&& unstake_step(ctx, now, UnstakeState::Start) matches Some(Ok((next, action)))
            &&& next matches UnstakeState::Cleared { days, .. }
            &&& days * 86400 <= now - earns_from(since, claimed) < (days + 1) * 86400
            &&& action matches ActionView::UpdateAssetAttributes { attributes, .. }
            &&& attributes == without_record(list)
        }),
{
    lemma_keys_differ();
    let freeze_period = ctx.accounts.config.freeze_period;
    assert forall|i: int| 0 <= i < list.len() implies lets_go(
        #[trigger] list[i],
        now,
        freeze_period,
    ) by {}
    let days = (now - earns_from(since, claimed)) / 86400;
    unstaking_starts_as_it_must(ctx, now, ctx, now, list, since, claimed, days);
}

/// When an unstaking is refused in its first step, and with what.
pub proof fn unstaking_is_refused_at_its_start(
    ctx: &Unstake,
    now: i64,
    list: Seq<AttributeView>,
    since: i64,
    claimed: i64,
    n: int,
)
    ensures
        ({
            let accounts = &ctx.accounts;
            let freeze_period = accounts.config.freeze_period;
            let first = unstake_step(ctx, now, UnstakeState::Start);
            let accepted = accounts_verdict(accounts) matches Some(Ok(_));
            let readable = asset_readable(accounts.asset.program@, accounts.asset.data@);
            let held = asset_attributes(accounts.asset.program@, accounts.asset.data@);
            &&& accounts_verdict(accounts) is None ==> first is None
            &&& accounts_verdict(accounts) matches Some(Err(e)) ==> first == Some(
                Err::<(UnstakeState, ActionView), ErrorCode>(e),
            )
            &&& accepted && !readable ==> first is None
            &&& accepted && readable && held is None ==> first == Some(
                Err::<(UnstakeState, ActionView), ErrorCode>(ErrorCode::AssetNotStaked),
            )
            &&& asset_holds(accounts, list) && 0 <= n < list.len() && all_let_go(
                list.take(n),
                now,
                freeze_period,
            ) && !lets_go(list[n], now, freeze_period) ==> {
                &&& first matches Some(Err(e))
                &&& objection(list[n], now, e)
            }
            &&& asset_holds(accounts, list) && all_let_go(list, now, freeze_period) && tells(
                list,
                since,
                claimed,
            ) && !(i64::MIN <= now - earns_from(since, claimed) <= i64::MAX) ==> first == Some(
                Err::<(UnstakeState, ActionView), ErrorCode>(ErrorCode::InvalidTimestamp),
            )
            &&& asset_holds(accounts, list) && first == Some(
                Err::<(UnstakeState, ActionView), ErrorCode>(ErrorCode::FreezePeriodNotElapsed),
            ) ==> exists|i: int|
                0 <= i < list.len() && (#[trigger] list[i]).key == "staked_at"@ && parsed_i64(
                    list[i].value,
                ) is Some && !days_have_passed(parsed_i64(list[i].value)->0, now, freeze_period)
        }),
{
    unstaking_is_refused_for_a_reason(&ctx.accounts, 0, list, now, since, claimed, n);
}

/// Once the record is cleared, the asset is thawed, signed by the update authority.
pub proof fn a_cleared_asset_is_thawed(ctx: &Unstake, now: i64, days: u64, bump: u8)
    ensures
        unstake_step(ctx, now, UnstakeState::Cleared { days, authority_bump: bump }) == Some(
            Ok::<(UnstakeState, ActionView), ErrorCode>(
                (
                    UnstakeState::Thawed { days, authority_bump: bump },
                    ActionView::ThawAsset {
                        signer: authority_signer(ctx.accounts.collection.key@, bump),
                    },
                ),
            ),
        ),
{
    seeds_of_authority_are(ctx.accounts.collection.key@, bump);
}

/// A collection whose first attribute `total_staked` is a positive number has it lowered by one
/// and nothing else changed. Any other collection stays as it is.
pub proof fn the_first_count_is_lowered(list: Seq<AttributeView>, i: int, n: u32)
    ensures
        stands_first(list, "total_staked"@, i) && parsed_u32(list[i].value) == Some(n) && n > 0
            ==> counted_down(Some(list)) == Some(
            list.update(i, AttributeView { key: "total_staked"@, value: notation(n - 1) }),
        ),
        stands_first(list, "total_staked"@, i) && (parsed_u32(list[i].value) is None || parsed_u32(
            list[i].value,
        ) == Some(0u32)) ==> counted_down(Some(list)) is None,
        absent(list, "total_staked"@) ==> counted_down(Some(list)) is None,
        counted_down(None) is None,
{
    lookup_finds_the_first(list, "total_staked"@, i);
    update_sets_the_first(list, "total_staked"@, notation(n - 1), i);
}

/// After the thaw, whatever days are owed, a collection whose first attribute `total_staked` is a
/// positive number is stored with that number lowered by one, signed by the update authority;
/// the days stay what they are. For any other collection the rewards are paid at once.
pub proof fn thawing_lowers_the_count(
    accounts: &StakingAccounts,
    days: u64,
    bump: u8,
    list: Seq<AttributeView>,
    i: int,
    n: u32,
)
    ensures
        stands_first(list, "total_staked"@, i) && parsed_u32(list[i].value) == Some(n) && n > 0
            ==> count_step(accounts, days, bump, Some(list)) == Some(
            Ok::<(UnstakeState, ActionView), ErrorCode>(
                (
                    UnstakeState::Counted { days },
                    ActionView::UpdateCollectionAttributes {
                        attributes: list.update(
                            i,
                            AttributeView { key: "total_staked"@, value: notation(n - 1) },
                        ),
                        signer: authority_signer(accounts.collection.key@, bump),
                    },
                ),
            ),
        ),
        stands_first(list, "total_staked"@, i) && (parsed_u32(list[i].value) is None || parsed_u32(
            list[i].value,
        ) == Some(0u32)) ==> count_step(accounts, days, bump, Some(list)) == payout(accounts, days),
        absent(list, "total_staked"@) ==> count_step(accounts, days, bump, Some(list)) == payout(
            accounts,
            days,
        ),
        count_step(accounts, days, bump, None) == payout(accounts, days),
{
    the_first_count_is_lowered(list, i, n);
    seeds_of_authority_are(accounts.collection.key@, bump);
}

/// The step after the thaw, from the account of the collection: its count is lowered by one
/// wherever it holds a positive one, whatever days are owed. Where it holds none, the step is
/// that of a collection that has been counted. There is no answer where the data of the
/// collection leads out of it.
pub proof fn every_unstaking_is_counted(
    ctx: &Unstake,
    now: i64,
    days: u64,
    bump: u8,
    list: Seq<AttributeView>,
    i: int,
    n: u32,
)
    ensures
        ({
            let accounts = &ctx.accounts;
            let collection = accounts.collection;
            let readable = collection_readable(collection.program@, collection.data@);
            let held = collection_attributes(collection.program@, collection.data@);
            let next = unstake_step(ctx, now, UnstakeState::Thawed { days, authority_bump: bump });
            let paid = unstake_step(ctx, now, UnstakeState::Counted { days });
            &&& !readable ==> next is None
            &&& readable && held is None ==> next == paid
            &&& readable && held == Some(list) && absent(list, "total_staked"@) ==> next == paid
            &&& readable && held == Some(list) && stands_first(list, "total_staked"@, i)
                && parsed_u32(list[i].value) is None ==> next == paid
            &&& readable && held == Some(list) && stands_first(list, "total_staked"@, i)
                && parsed_u32(list[i].value) == Some(0u32) ==> next == paid
            &&& readable && held == Some(list) && stands_first(list, "total_staked"@, i)
                && parsed_u32(list[i].value) == Some(n) && n > 0 ==> next == Some(
                Ok::<(UnstakeState, ActionView), ErrorCode>(
                    (
                        UnstakeState::Counted { days },
                        ActionView::UpdateCollectionAttributes {
                            attributes: list.update(
                                i,
                                AttributeView { key: "total_staked"@, value: notation(n - 1) },
                            ),
                            signer: authority_signer(collection.key@, bump),
                        },
                    ),
                ),
            )
        }),
{
    thawing_lowers_the_count(&ctx.accounts, days, bump, list, i, n);
}

/// The last step mints exactly the reward for the days, signed by the configuration, where that
/// is at least one unit of the token, and else does nothing.
pub proof fn payout_is_the_reward(accounts: &StakingAccounts, days: u64)
    ensures
        ({
            let paid = payout(accounts, days);
            let bps = accounts.config.rewards_bps;
            let decimals = accounts.decimals;
            let owed = earned(days as int, bps, decimals);
            &&& !has_reward(days as int, bps, decimals) ==> paid is None
            &&& has_reward(days as int, bps, decimals) && owed > 0xffff_ffff_ffff_ffff
                ==> paid == Some(
                Err::<(UnstakeState, ActionView), ErrorCode>(ErrorCode::InvalidRewardsBps),
            )
            &&& has_reward(days as int, bps, decimals) && owed < 10000 ==> paid == Some(
                Ok::<(UnstakeState, ActionView), ErrorCode>(
                    (UnstakeState::Finished, ActionView::Done),
                ),
            )
            &&& has_reward(days as int, bps, decimals) && 10000 <= owed <= 0xffff_ffff_ffff_ffff
                ==> {
                &&& paid matches Some(Ok((ended, action)))
                &&& ended == UnstakeState::Finished
                &&& action matches ActionView::MintRewards { amount, decimals: scale, signer }
                &&& is_reward(amount, days as int, bps, decimals)
                &&& scale == decimals
                &&& signer == config_signer(accounts.collection.key@, accounts.config.bump)
            }
        }),
{
    reward_is_a_share_of_a_token(days, accounts.config.rewards_bps, accounts.decimals);
    rewards_are_computable(days, accounts.config.rewards_bps, accounts.decimals);
    seeds_of_config_are(accounts.collection.key@, accounts.config.bump);
}

/// Once the collection is counted, the last step mints exactly the reward for the days that are
/// carried, signed by the configuration, where that is at least one unit of the token, and else
/// does nothing. Then nothing is left to do.
pub proof fn the_days_carried_are_paid(ctx: &Unstake, now: i64, days: u64)
    ensures
        ({
            let accounts = &ctx.accounts;
            let paid = unstake_step(ctx, now, UnstakeState::Counted { days });
            let bps = accounts.config.rewards_bps;
            let decimals = accounts.decimals;
            let owed = earned(days as int, bps, decimals);
            &&& !has_reward(days as int, bps, decimals) ==> paid is None
            &&& has_reward(days as int, bps, decimals) && owed > 0xffff_ffff_ffff_ffff
                ==> paid == Some(
                Err::<(UnstakeState, ActionView), ErrorCode>(ErrorCode::InvalidRewardsBps),
            )
            &&& has_reward(days as int, bps, decimals) && owed < 10000 ==> paid == Some(
                Ok::<(UnstakeState, ActionView), ErrorCode>(
                    (UnstakeState::Finished, ActionView::Done),
                ),
            )
            &&& has_reward(days as int, bps, decimals) && 10000 <= owed <= 0xffff_ffff_ffff_ffff
                ==> {
                &&& paid matches Some(Ok((ended, action)))
                &&& ended == UnstakeState::Finished
                &&& action matches ActionView::MintRewards { amount, decimals: scale, signer }
                &&& is_reward(amount, days as int, bps, decimals)
                &&& scale == decimals
                &&& signer == config_signer(accounts.collection.key@, accounts.config.bump)
            }
        }),
        unstake_step(ctx, now, UnstakeState::Finished) == Some(
            Ok::<(UnstakeState, ActionView), ErrorCode>((UnstakeState::Finished, ActionView::Done)),
        ),
{
    payout_is_the_reward(&ctx.accounts, days);
}

/// An unstaking from its start to its end, each step in accounts and at a time of its own: the
/// collection is counted down or has nothing to count, and what is minted in the end is the
/// reward for the full days since the last claim, or since staking where there was none.
pub proof fn unstaking_pays_the_days_since_the_last_claim(
    ctx: &Unstake,
    now: i64,
    thawing: &Unstake,
    counting: &Unstake,
    paying: &Unstake,
    later: i64,
    list: Seq<AttributeView>,
    since: i64,
    claimed: i64,
    days: int,
)
    requires
        asset_holds(&ctx.accounts, list),
        all_let_go(list, now, ctx.accounts.config.freeze_period),
        tells(list, since, claimed),
        i64::MIN <= now - earns_from(since, claimed) <= i64::MAX,
        full_days_between(earns_from(since, claimed), now, days),
        collection_readable(
            counting.accounts.collection.program@,
            counting.accounts.collection.data@,
        ),
    ensures
        ({
            &&& unstake_step(ctx, now, UnstakeState::Start) matches Some(Ok((cleared, _)))
            &&& unstake_step(thawing, later, cleared) matches Some(Ok((thawed, _)))
            &&& match unstake_step(counting, later, thawed) {
                Some(Ok((counted, ActionView::UpdateCollectionAttributes { .. }))) => {
                    unstake_step(paying, later, counted) matches Some(Ok((ended, action))) ==> {
                        ended is Finished && mints(action, &paying.accounts, days)
                    }
                },
                Some(Ok((ended, action))) => ended is Finished && mints(
                    action,
                    &counting.accounts,
                    days,
                ),
                _ => true,
            }
        }),
{
    unstaking_starts_as_it_must(ctx, now, thawing, later, list, since, claimed, days);
    payout_is_the_reward(&counting.accounts, days as u64);
    payout_is_the_reward(&paying.accounts, days as u64);
    reward_is_a_share_of_a_token(
        days as u64,
        counting.accounts.config.rewards_bps,
        counting.accounts.decimals,
    );
    reward_is_a_share_of_a_token(
        days as u64,
        paying.accounts.config.rewards_bps,
        paying.accounts.decimals,
    );
}

/// Whether a call mints the reward for the days, or is none where that is less than one unit.
pub open spec fn mints(action: ActionView, accounts: &StakingAccounts, days: int) -> bool {
    let amount = match action {
        ActionView::MintRewards { amount, .. } => amount,
        _ => 0,
    };
    &&& is_reward(amount, days, accounts.config.rewards_bps, accounts.decimals)
    &&& action is Done <==> amount == 0
}

/// An attribute stands against unstaking exactly where it has a fault.
proof fn lemma_lets_go(attribute: AttributeView, now: i64, freeze_period: i64)
    ensures
        lets_go(attribute, now, freeze_period) <==> fault(attribute, now, freeze_period) is None,
{
    lemma_keys_differ();
    if parsed_i64(attribute.value) is Some {
        passed_days_are_counted(parsed_i64(attribute.value)->0, now, freeze_period);
    }
}

/// The first fault is that of some attribute.
proof fn lemma_first_fault_stands(list: Seq<AttributeView>, now: i64, freeze_period: i64) -> (i:
    int)
    requires
        first_fault(list, now, freeze_period) is Some,
    ensures
        0 <= i < list.len(),
        first_fault(list, now, freeze_period) == fault(list[i], now, freeze_period),
    decreases list.len(),
{
    let front = list.drop_last();
    if first_fault(front, now, freeze_period) is Some {
        let i = lemma_first_fault_stands(front, now, freeze_period);
        assert(front[i] == list[i]);
        i
    } else {
        list.len() - 1
    }
}

/// Two filters that agree on every attribute keep the same ones.
proof fn lemma_same_filter(
    list: Seq<AttributeView>,
    one: spec_fn(AttributeView) -> bool,
    other: spec_fn(AttributeView) -> bool,
)
    requires
        forall|a: AttributeView| #[trigger] one(a) == other(a),
    ensures
        list.filter(one) == list.filter(other),
    decreases list.len(),
{
    reveal(Seq::filter);
    if list.len() > 0 {
        lemma_same_filter(list.drop_last(), one, other);
        assert(one(list.last()) == other(list.last()));
    }
}

} // verus!
