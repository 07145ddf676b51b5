//! Laws of the reward formula.

use crate::error::ErrorCode;
use crate::laws::vocabulary::{earned, has_reward, is_reward};
use crate::utils::{lemma_pow10, reward_fractions, rewards, rewards_computable};
use vstd::arithmetic::power::pow;
use vstd::prelude::*;

verus! {

/// The amount of a reward: each day earns `rewards_bps` ten-thousandths of a token of
/// `10^decimals` units, and what does not make up a full unit is dropped. A product that does not
/// fit into 64 bits is refused.
pub proof fn reward_is_a_share_of_a_token(days: u64, rewards_bps: u16, decimals: u8)
    ensures
        earned(days as int, rewards_bps, decimals) <= 0xffff_ffff_ffff_ffff <==> rewards(
            days,
            rewards_bps,
            decimals,
        ) is Ok,
        rewards(days, rewards_bps, decimals) matches Ok(amount) ==> is_reward(
            amount,
            days as int,
            rewards_bps,
            decimals,
        ),
        rewards(days, rewards_bps, decimals) matches Err(e) ==> e == ErrorCode::InvalidRewardsBps,
{
    lemma_fractions(days, rewards_bps, decimals);
}

/// A reward has one amount only.
pub proof fn reward_is_unique(
    one: u64,
    other: u64,
    days: int,
    rewards_bps: u16,
    decimals: u8,
)
    requires
        is_reward(one, days, rewards_bps, decimals),
        is_reward(other, days, rewards_bps, decimals),
    ensures
        one == other,
{
}

/// A reward can be computed wherever the scale of the token fits into 64 bits, and where the
/// days alone earn more than fits there.
pub proof fn rewards_are_computable(days: u64, rewards_bps: u16, decimals: u8)
    ensures
        rewards_computable(days, rewards_bps, decimals) == has_reward(
            days as int,
            rewards_bps,
            decimals,
        ),
        decimals <= 19 ==> rewards_computable(days, rewards_bps, decimals),
{
    lemma_pow10(decimals as nat);
}

/// More days never pay less: where the reward for some days is owed, so is that for fewer days,
/// and it is no larger.
pub proof fn rewards_grow_with_days(fewer: u64, more: u64, rewards_bps: u16, decimals: u8)
    requires
        fewer <= more,
        rewards(more, rewards_bps, decimals) is Ok,
    ensures
        rewards(fewer, rewards_bps, decimals) is Ok,
        rewards(fewer, rewards_bps, decimals)->Ok_0 <= rewards(more, rewards_bps, decimals)->Ok_0,
{
    lemma_pow10(decimals as nat);
    let scale = pow(10, decimals as nat);
    lemma_fractions(fewer, rewards_bps, decimals);
    assert(fewer * rewards_bps * scale <= more * rewards_bps * scale) by (nonlinear_arith)
        requires
            0 <= fewer <= more,
            0 <= rewards_bps,
            1 <= scale,
    ;
}

/// Splitting the days over two payments loses at most one base unit of the token, and never
/// gains one.
pub proof fn splitting_gains_nothing(first: u64, second: u64, rewards_bps: u16, decimals: u8)
    requires
        first + second <= u64::MAX,
        rewards((first + second) as u64, rewards_bps, decimals) is Ok,
    ensures
        rewards(first, rewards_bps, decimals) is Ok,
        rewards(second, rewards_bps, decimals) is Ok,
        ({
            let whole = rewards((first + second) as u64, rewards_bps, decimals)->Ok_0;
            let parts = rewards(first, rewards_bps, decimals)->Ok_0 + rewards(
                second,
                rewards_bps,
                decimals,
            )->Ok_0;
            parts <= whole <= parts + 1
        }),
{
    let whole = (first + second) as u64;
    rewards_grow_with_days(first, whole, rewards_bps, decimals);
    rewards_grow_with_days(second, whole, rewards_bps, decimals);
    lemma_fractions(first, rewards_bps, decimals);
    lemma_fractions(second, rewards_bps, decimals);
    let scale = pow(10, decimals as nat);
    assert(whole * rewards_bps * scale == first * rewards_bps * scale + second * rewards_bps
        * scale) by (nonlinear_arith)
        requires
            whole == first + second,
    ;
}

/// Where no days have passed, or a day earns nothing, nothing is paid.
pub proof fn nothing_for_nothing(staked_time_days: u64, rewards_bps: u16, decimals: u8)
    requires
        staked_time_days == 0 || rewards_bps == 0,
    ensures
        rewards(staked_time_days, rewards_bps, decimals) == Ok::<u64, ErrorCode>(0),
{
    let scale = pow(10, decimals as nat);
    assert(staked_time_days * rewards_bps * scale == 0) by (nonlinear_arith)
        requires
            staked_time_days == 0 || rewards_bps == 0,
    ;
}

/// A reward is never negative.
proof fn lemma_fractions(days: u64, rewards_bps: u16, decimals: u8)
    ensures
        reward_fractions(days, rewards_bps, decimals) >= 0,
{
    lemma_pow10(decimals as nat);
    let scale = pow(10, decimals as nat);
    assert(days * rewards_bps * scale >= 0) by (nonlinear_arith)
        requires
            scale >= 1,
    ;
}

} // verus!
