//! The reasons for which a staking request is refused.

use vstd::prelude::*;

verus! {

/// Why an instruction was refused.
#[derive(Clone, Copy, Debug, PartialEq, Eq, Structural)]
pub enum ErrorCode {
    /// The signer does not own the asset.
    InvalidOwner,
    /// The asset or the collection is not under the expected update authority.
    InvalidUpdateAuthority,
    /// The asset carries no staking record, or its record says it is not staked.
    AssetNotStaked,
    /// A staking timestamp is missing, unreadable or out of range.
    InvalidTimestamp,
    /// The asset has not been staked for as many days as the configuration asks for.
    FreezePeriodNotElapsed,
    /// The reward does not fit into a token amount.
    InvalidRewardsBps,
    /// Time arithmetic left the range of a timestamp.
    NumericalOverflow,
    /// An account is not at the address that its seeds derive.
    ConstraintSeeds,
    /// The program to be called is not the asset program.
    ConstraintAddress,
    /// An account that its role asks for does not exist.
    AccountNotInitialized,
    /// An account belongs to another program than its role asks for.
    AccountOwnedByWrongProgram,
    /// The record that its role asks for cannot be read from an account.
    BorshIoError,
}

} // verus!
