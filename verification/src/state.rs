//! The configuration of a staking pool.

use vstd::prelude::*;

verus! {

/// How a collection's assets may be staked.
#[derive(Clone, Copy, Debug, PartialEq, Eq, Structural)]
pub struct Config {
    /// The reward for one day, in ten-thousandths of a token.
    pub rewards_bps: u16,
    /// The number of full days that an asset stays staked at least.
    pub freeze_period: i64,
    /// The bump seed of the mint of the reward token.
    pub rewards_bump: u8,
    /// The bump seed of the configuration account.
    pub bump: u8,
}

} // verus!
