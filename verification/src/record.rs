//! The staking record of an asset: three attributes that say whether it is staked, since when,
//! and up to when its rewards are paid.

use crate::attributes::{last_value, AttributeView};
use crate::decimal::parsed_i64;
use crate::utils::SECONDS_PER_DAY;
use vstd::prelude::*;

verus! {

/// Key of the attribute that says whether the asset is staked.
pub open spec fn staked_key() -> Seq<char> {
    "staked"@
}

/// Key of the attribute that says since when the asset is staked.
pub open spec fn staked_at_key() -> Seq<char> {
    "staked_at"@
}

/// Key of the attribute that says up to when rewards are paid.
pub open spec fn last_claimed_key() -> Seq<char> {
    "last_claimed_at"@
}

/// Whether `key` belongs to the staking record.
pub open spec fn is_record_key(key: Seq<char>) -> bool {
    key == staked_key() || key == staked_at_key() || key == last_claimed_key()
}

/// Whether every timestamp of the staking record can be read.
pub open spec fn timestamps_readable(list: Seq<AttributeView>) -> bool {
    forall|i: int|
        0 <= i < list.len() && ((#[trigger] list[i]).key == staked_at_key() || list[i].key
            == last_claimed_key()) ==> parsed_i64(list[i].value) is Some
}

/// The timestamp that the last attribute with the key `key` holds; 0 where there is none.
pub open spec fn timestamp(list: Seq<AttributeView>, key: Seq<char>) -> i64 {
    match last_value(list, key) {
        Some(value) => match parsed_i64(value) {
            Some(n) => n,
            None => 0,
        },
        None => 0,
    }
}

/// The time from which on rewards are owed: that of the last claim or, for an asset that keeps
/// none, that of staking.
pub open spec fn paid_until(list: Seq<AttributeView>) -> i64 {
    if timestamp(list, last_claimed_key()) == 0 {
        timestamp(list, staked_at_key())
    } else {
        timestamp(list, last_claimed_key())
    }
}

/// A signed number of seconds as the unsigned 64-bit number with the same bits.
pub open spec fn unsigned(seconds: int) -> int {
    if seconds >= 0 {
        seconds
    } else {
        seconds + 0x1_0000_0000_0000_0000
    }
}

/// An unsigned number of seconds as the signed 64-bit number with the same bits.
pub open spec fn signed(seconds: int) -> int {
    if seconds <= i64::MAX {
        seconds
    } else {
        seconds - 0x1_0000_0000_0000_0000
    }
}

/// The number of full days in the unsigned reading of `seconds`.
pub open spec fn full_days(seconds: int) -> int {
    unsigned(seconds) / (SECONDS_PER_DAY as int)
}

/// The number of full days in `seconds`, towards zero.
pub open spec fn whole_days(seconds: int) -> int {
    if seconds >= 0 {
        seconds / (SECONDS_PER_DAY as int)
    } else {
        -((-seconds) / (SECONDS_PER_DAY as int))
    }
}

/// The number of full days in the unsigned reading of `seconds`.
pub(crate) fn days_in(seconds: i64) -> (r: u64)
    ensures
        r == full_days(seconds as int),
{
    assert(seconds >= 0 ==> seconds as u64 == seconds) by (bit_vector);
    assert(seconds < 0 ==> seconds as u64 == seconds + 0x1_0000_0000_0000_0000) by (bit_vector);
    (seconds as u64) / (SECONDS_PER_DAY as u64)
}

/// The signed reading of an unsigned number of seconds.
pub(crate) fn to_signed(seconds: u64) -> (r: i64)
    ensures
        r == signed(seconds as int),
{
    assert(seconds <= 0x7fff_ffff_ffff_ffff ==> seconds as i64 == seconds) by (bit_vector);
    assert(seconds > 0x7fff_ffff_ffff_ffff ==> seconds as i64 == seconds - 0x1_0000_0000_0000_0000)
        by (bit_vector);
    seconds as i64
}

/// The three keys of a staking record are different.
pub(crate) proof fn lemma_keys_differ()
    ensures
        staked_key() != staked_at_key(),
        staked_key() != last_claimed_key(),
        staked_at_key() != last_claimed_key(),
{
    reveal_strlit("staked");
    reveal_strlit("staked_at");
    reveal_strlit("last_claimed_at");
    assert(staked_key().len() == 6);
    assert(staked_at_key().len() == 9);
    assert(last_claimed_key().len() == 15);
}

} // verus!
