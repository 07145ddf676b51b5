//! The instructions that pay out rewards.

pub mod claim_rewards;
pub mod unstake;
