//! Laws of unstaking.

use crate::action::ActionView;
use crate::attributes::{at_most_one, first_value, last_value, AttributeView};
use crate::decimal::{notation, parsed_i64, u32_notation_round_trip};
use crate::error::ErrorCode;
use crate::instructions::claim_rewards::{
    claim_step, next_claim_time, settlement, terms_of_claim, ClaimRewards, ClaimStateView,
    ClaimTerms,
};
use crate::instructions::unstake::{
    cleared, cleared_record, counted_down, days_owed, fault, first_fault, other_attributes,
    total_staked, total_staked_key, unstake_step, Unstake, UnstakeState,
};
use crate::laws::attribute_lists::{
    lemma_last_value_is, lookup_finds_update, update_leaves_other_keys,
};
use crate::laws::claiming::{
    asset_holds, settlement_is_read_back, settlement_touches_only_the_claim_time,
};
use crate::record::{
    is_record_key, last_claimed_key, lemma_keys_differ, paid_until, staked_at_key, staked_key,
    timestamps_readable, whole_days,
};
use crate::utils::rewards;
use vstd::prelude::*;

verus! {

/// Unstaking keeps every attribute that does not belong to the staking record, in its order.
pub proof fn unstaking_keeps_other_attributes(list: Seq<AttributeView>)
    ensures
        other_attributes(cleared(list)) == other_attributes(list),
{
    let other = |a: AttributeView| !is_record_key(a.key);
    let kept = list.filter(other);
    Seq::filter_distributes_over_add(kept, cleared_record(), other);
    lemma_filter_none(cleared_record(), other);
    assert forall|i: int| 0 <= i < kept.len() implies other(#[trigger] kept[i]) by {
        list.lemma_filter_pred(other, i);
    }
    lemma_filter_all(kept, other);
    assert(kept + Seq::<AttributeView>::empty() =~= kept);
}

/// An unstaked asset has one staking record, which says that it is not staked, and holds no
/// time.
pub proof fn unstaking_clears_the_record(list: Seq<AttributeView>)
    ensures
        last_value(cleared(list), staked_key()) == Some("false"@),
        last_value(cleared(list), staked_at_key()) == Some("0"@),
        last_value(cleared(list), last_claimed_key()) == Some("0"@),
        at_most_one(cleared(list), staked_key()),
        at_most_one(cleared(list), staked_at_key()),
        at_most_one(cleared(list), last_claimed_key()),
{
    lemma_keys_differ();
    let other = |a: AttributeView| !is_record_key(a.key);
    let kept = other_attributes(list);
    let after = cleared(list);
    let n = kept.len() as int;
    assert forall|i: int| 0 <= i < n implies !is_record_key((#[trigger] after[i]).key) by {
        list.lemma_filter_pred(other, i);
        assert(after[i] == kept[i]);
    }
    assert(after[n] == cleared_record()[0]);
    assert(after[n + 1] == cleared_record()[1]);
    assert(after[n + 2] == cleared_record()[2]);
    lemma_last_value_is(after, staked_key(), n);
    lemma_last_value_is(after, staked_at_key(), n + 1);
    lemma_last_value_is(after, last_claimed_key(), n + 2);
}

/// An asset that was unstaked earns nothing more: a claim on it is refused.
pub proof fn no_claim_after_unstaking(list: Seq<AttributeView>, now: i64)
    ensures
        terms_of_claim(cleared(list), now) == Err::<ClaimTerms, ErrorCode>(
            ErrorCode::AssetNotStaked,
        ),
{
    lemma_keys_differ();
    unstaking_clears_the_record(list);
    let other = |a: AttributeView| !is_record_key(a.key);
    let after = cleared(list);
    let kept = other_attributes(list);
    lemma_zero();
    assert forall|i: int|
        0 <= i < after.len() && ((#[trigger] after[i]).key == staked_at_key() || after[i].key
            == last_claimed_key()) implies parsed_i64(after[i].value) is Some by {
        if i < kept.len() {
            list.lemma_filter_pred(other, i);
            assert(after[i] == kept[i]);
        } else {
            assert(after[i] == cleared_record()[i - kept.len()]);
        }
    }
    reveal_strlit("false");
    reveal_strlit("true");
    assert("false"@.len() == 5 && "true"@.len() == 4);
}

/// An asset that was unstaked cannot be unstaked again.
pub proof fn no_unstaking_after_unstaking(list: Seq<AttributeView>, now: i64, freeze_period: i64)
    ensures
        days_owed(cleared(list), now, freeze_period) == Err::<u64, ErrorCode>(
            ErrorCode::AssetNotStaked,
        ),
{
    lemma_keys_differ();
    let other = |a: AttributeView| !is_record_key(a.key);
    let after = cleared(list);
    let kept = other_attributes(list);
    let n = kept.len() as int;
    reveal_strlit("false");
    reveal_strlit("true");
    assert("false"@.len() == 5 && "true"@.len() == 4);
    assert forall|i: int| 0 <= i < n implies fault(#[trigger] after[i], now, freeze_period)
        is None by {
        list.lemma_filter_pred(other, i);
        assert(after[i] == kept[i]);
    }
    assert(after[n] == cleared_record()[0]);
    lemma_first_fault_is(after, now, freeze_period, n);
}

/// Once the asset holds the attributes that an unstaking asked to be stored, both instructions
/// refuse it.
pub proof fn an_unstaked_asset_is_refused(
    list: Seq<AttributeView>,
    claim: &ClaimRewards,
    unstaking: &Unstake,
    now: i64,
)
    requires
        asset_holds(&claim.accounts, cleared(list)),
        asset_holds(&unstaking.accounts, cleared(list)),
    ensures
        claim_step(claim, now, ClaimStateView::Start) == Some(
            Err::<(ClaimStateView, ActionView), ErrorCode>(ErrorCode::AssetNotStaked),
        ),
        unstake_step(unstaking, now, UnstakeState::Start) == Some(
            Err::<(UnstakeState, ActionView), ErrorCode>(ErrorCode::AssetNotStaked),
        ),
{
    no_claim_after_unstaking(list, now);
    no_unstaking_after_unstaking(list, now, unstaking.accounts.config.freeze_period);
}

/// An asset is only unstaked after its freeze period, whichever of its attributes says when it
/// was staked, and only if none of its attributes says that it is not staked.
pub proof fn unstaking_respects_the_freeze_period(
    list: Seq<AttributeView>,
    now: i64,
    freeze_period: i64,
    i: int,
)
    requires
        days_owed(list, now, freeze_period) is Ok,
        0 <= i < list.len(),
    ensures
        list[i].key == staked_key() ==> list[i].value == "true"@,
        list[i].key == staked_at_key() ==> parsed_i64(list[i].value) is Some && whole_days(
            now - parsed_i64(list[i].value)->0,
        ) >= freeze_period,
{
    lemma_keys_differ();
    lemma_no_fault(list, now, freeze_period);
    assert(fault(list[i], now, freeze_period) is None);
}

/// Unstaking pays for the same days as a claim at the same time would.
pub proof fn unstaking_pays_as_a_claim(list: Seq<AttributeView>, now: i64, freeze_period: i64)
    requires
        days_owed(list, now, freeze_period) is Ok,
        terms_of_claim(list, now) is Ok,
    ensures
        days_owed(list, now, freeze_period)->Ok_0 == terms_of_claim(list, now)->Ok_0.days,
{
}

/// No day is paid twice: after a claim, unstaking pays only for the days that the claim did
/// not. Both times lie on one side of the time up to which rewards were paid before.
pub proof fn unstaking_pays_what_claims_left(
    list: Seq<AttributeView>,
    now: i64,
    later: i64,
    freeze_period: i64,
)
    requires
        at_most_one(list, last_claimed_key()),
        terms_of_claim(list, now) is Ok,
        settlement(list, terms_of_claim(list, now)->Ok_0) is Ok,
        0 < next_claim_time(terms_of_claim(list, now)->Ok_0) <= later,
        days_owed(list, later, freeze_period) is Ok,
        (paid_until(list) <= now) == (paid_until(list) <= later),
    ensures
        ({
            let claimed = terms_of_claim(list, now)->Ok_0;
            let between = settlement(list, claimed)->Ok_0;
            let rest = days_owed(between, later, freeze_period);
            &&& rest is Ok
            &&& claimed.days + rest->Ok_0 == days_owed(list, later, freeze_period)->Ok_0
        }),
{
    let claimed = terms_of_claim(list, now)->Ok_0;
    settlement_is_read_back(list, claimed);
    lemma_settlement_brings_no_fault(list, claimed, later, freeze_period);
}

/// Unstaking lowers the count of the collection by exactly one, and changes the lookup of no
/// other key.
pub proof fn unstaking_counts_down_by_one(list: Seq<AttributeView>, other: Seq<char>)
    requires
        total_staked(list) > 0,
        other != total_staked_key(),
    ensures
        counted_down(Some(list)) is Some,
        total_staked(counted_down(Some(list))->0) == total_staked(list) - 1,
        first_value(counted_down(Some(list))->0, other) == first_value(list, other),
{
    let text = notation(total_staked(list) - 1);
    u32_notation_round_trip((total_staked(list) - 1) as u32);
    lookup_finds_update(list, total_staked_key(), text);
    update_leaves_other_keys(list, total_staked_key(), text, other);
}

/// The number of calls that an unstaking makes at most from here on.
pub open spec fn calls_left(state: UnstakeState) -> nat {
    match state {
        UnstakeState::Start => 4,
        UnstakeState::Cleared { .. } => 3,
        UnstakeState::Thawed { .. } => 2,
        UnstakeState::Counted { .. } => 1,
        UnstakeState::Finished => 0,
    }
}

/// An unstaking comes to an end: each step leaves fewer calls to make, and when none is left
/// nothing more is asked for.
pub proof fn unstaking_comes_to_an_end(ctx: &Unstake, now: i64, state: UnstakeState)
    requires
        unstake_step(ctx, now, state) is Some,
        unstake_step(ctx, now, state)->0 is Ok,
    ensures
        ({
            let (next, action) = unstake_step(ctx, now, state)->0->Ok_0;
            &&& state is Finished ==> next is Finished && action is Done
            &&& !(state is Finished) ==> calls_left(next) < calls_left(state)
        }),
{
}

/// The order of an unstaking: the staking record is cleared first, then the asset is thawed,
/// then the collection is counted down, and rewards are minted last.
pub proof fn unstaking_keeps_its_order(ctx: &Unstake, now: i64, state: UnstakeState)
    requires
        unstake_step(ctx, now, state) is Some,
        unstake_step(ctx, now, state)->0 is Ok,
    ensures
        ({
            let (next, action) = unstake_step(ctx, now, state)->0->Ok_0;
            &&& state is Start <==> action is UpdateAssetAttributes
            &&& state is Start ==> next is Cleared
            &&& state is Cleared <==> action is ThawAsset
            &&& state is Cleared ==> next is Thawed
            &&& action is UpdateCollectionAttributes ==> state is Thawed && next is Counted
            &&& action is MintRewards ==> (state is Thawed || state is Counted) && next is Finished
        }),
{
}

/// The days that an unstaking still has to pay for.
pub open spec fn days_carried(state: UnstakeState) -> Option<u64> {
    match state {
        UnstakeState::Cleared { days, .. } => Some(days),
        UnstakeState::Thawed { days, .. } => Some(days),
        UnstakeState::Counted { days } => Some(days),
        _ => None,
    }
}

/// The days that the first step found are carried unchanged until they are paid for, and what
/// is minted is the reward for them.
pub proof fn unstaking_pays_the_days_it_found(ctx: &Unstake, now: i64, state: UnstakeState)
    requires
        unstake_step(ctx, now, state) is Some,
        unstake_step(ctx, now, state)->0 is Ok,
        days_carried(state) is Some,
    ensures
        ({
            let (next, action) = unstake_step(ctx, now, state)->0->Ok_0;
            let reward = rewards(
                days_carried(state)->0,
                ctx.accounts.config.rewards_bps,
                ctx.accounts.decimals,
            );
            &&& !(next is Finished) ==> days_carried(next) == days_carried(state)
            &&& next is Finished ==> reward == Ok::<u64, ErrorCode>(
                match action {
                    ActionView::MintRewards { amount, .. } => amount,
                    _ => 0,
                },
            )
        }),
{
}

/// The digit `0` denotes the number 0.
proof fn lemma_zero()
    ensures
        parsed_i64("0"@) == Some(0i64),
{
    reveal_strlit("0");
    reveal_with_fuel(crate::decimal::digits_value, 2);
    assert("0"@.drop_last() =~= Seq::<char>::empty());
}

/// A filter that every element passes changes nothing.
proof fn lemma_filter_all(list: Seq<AttributeView>, keep: spec_fn(AttributeView) -> bool)
    requires
        forall|i: int| 0 <= i < list.len() ==> keep(#[trigger] list[i]),
    ensures
        list.filter(keep) == list,
    decreases list.len(),
{
    reveal(Seq::filter);
    if list.len() > 0 {
        let front = list.drop_last();
        assert forall|i: int| 0 <= i < front.len() implies keep(#[trigger] front[i]) by {
            assert(front[i] == list[i]);
        }
        lemma_filter_all(front, keep);
        assert(keep(list[list.len() - 1]));
        assert(front.push(list.last()) =~= list);
    }
}

/// A filter that no element passes leaves nothing.
proof fn lemma_filter_none(list: Seq<AttributeView>, keep: spec_fn(AttributeView) -> bool)
    requires
        forall|i: int| 0 <= i < list.len() ==> !keep(#[trigger] list[i]),
    ensures
        list.filter(keep) == Seq::<AttributeView>::empty(),
    decreases list.len(),
{
    reveal(Seq::filter);
    if list.len() > 0 {
        let front = list.drop_last();
        assert forall|i: int| 0 <= i < front.len() implies !keep(#[trigger] front[i]) by {
            assert(front[i] == list[i]);
        }
        lemma_filter_none(front, keep);
        assert(!keep(list[list.len() - 1]));
    }
}

/// Where nothing stands against unstaking, nothing does once a claim is settled.
pub(crate) proof fn lemma_settlement_brings_no_fault(
    list: Seq<AttributeView>,
    terms: ClaimTerms,
    now: i64,
    freeze_period: i64,
)
    requires
        at_most_one(list, last_claimed_key()),
        timestamps_readable(list),
        settlement(list, terms) is Ok,
        first_fault(list, now, freeze_period) is None,
    ensures
        first_fault(settlement(list, terms)->Ok_0, now, freeze_period) is None,
{
    lemma_keys_differ();
    let after = settlement(list, terms)->Ok_0;
    settlement_is_read_back(list, terms);
    settlement_touches_only_the_claim_time(list, terms);
    lemma_no_fault(list, now, freeze_period);
    assert(timestamps_readable(after));
    assert forall|i: int| 0 <= i < after.len() implies fault(
        #[trigger] after[i],
        now,
        freeze_period,
    ) is None by {
        if i < list.len() && list[i].key != last_claimed_key() {
            assert(after[i] == list[i]);
            assert(fault(list[i], now, freeze_period) is None);
        } else {
            assert(after[i].key == last_claimed_key());
        }
    }
    lemma_faultless(after, now, freeze_period);
}

/// A list without a first fault has no faulty attribute.
proof fn lemma_no_fault(list: Seq<AttributeView>, now: i64, freeze_period: i64)
    requires
        first_fault(list, now, freeze_period) is None,
    ensures
        forall|i: int|
            0 <= i < list.len() ==> fault(#[trigger] list[i], now, freeze_period) is None,
    decreases list.len(),
{
    if list.len() > 0 {
        lemma_no_fault(list.drop_last(), now, freeze_period);
        assert forall|i: int| 0 <= i < list.len() implies fault(
            #[trigger] list[i],
            now,
            freeze_period,
        ) is None by {
            if i < list.len() - 1 {
                assert(list.drop_last()[i] == list[i]);
            }
        }
    }
}

/// A list without a faulty attribute has no first fault.
pub(crate) proof fn lemma_faultless(list: Seq<AttributeView>, now: i64, freeze_period: i64)
    requires
        forall|i: int|
            0 <= i < list.len() ==> fault(#[trigger] list[i], now, freeze_period) is None,
    ensures
        first_fault(list, now, freeze_period) is None,
    decreases list.len(),
{
    if list.len() > 0 {
        let front = list.drop_last();
        assert forall|i: int| 0 <= i < front.len() implies fault(
            #[trigger] front[i],
            now,
            freeze_period,
        ) is None by {
            assert(front[i] == list[i]);
        }
        lemma_faultless(front, now, freeze_period);
        assert(fault(list[list.len() - 1], now, freeze_period) is None);
    }
}

/// The fault of the first faulty attribute is the first fault.
pub(crate) proof fn lemma_first_fault_is(list: Seq<AttributeView>, now: i64, freeze_period: i64, n: int)
    requires
        0 <= n < list.len(),
        forall|i: int| 0 <= i < n ==> fault(#[trigger] list[i], now, freeze_period) is None,
        fault(list[n], now, freeze_period) is Some,
    ensures
        first_fault(list, now, freeze_period) == fault(list[n], now, freeze_period),
    decreases list.len(),
{
    let front = list.drop_last();
    assert forall|i: int| 0 <= i < n implies fault(#[trigger] front[i], now, freeze_period)
        is None by {
        assert(front[i] == list[i]);
    }
    if n == list.len() - 1 {
        lemma_faultless(front, now, freeze_period);
    } else {
        assert(front[n] == list[n]);
        lemma_first_fault_is(front, now, freeze_period, n);
    }
}

} // verus!
