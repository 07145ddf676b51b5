//! Reward arithmetic, and lookup and update of attributes by key.

use crate::attributes::{
    first_value, has_key, is_first, lemma_first_is, list_view, updated, Attribute, Attributes,
};
use crate::error::ErrorCode;
use vstd::arithmetic::power::{lemma_pow_increases, lemma_pow_positive, pow};
use vstd::prelude::*;

verus! {

/// The number of seconds in a day.
pub const SECONDS_PER_DAY: i64 = 86400;

/// The reward in ten-thousandths of a base unit of the token: `rewards_bps` ten-thousandths of
/// a whole token for each day.
pub open spec fn reward_fractions(staked_time_days: u64, rewards_bps: u16, decimals: u8) -> int {
    staked_time_days * rewards_bps * pow(10, decimals as nat)
}

/// The reward in base units of the token, rounded down. It is owed if the product that it is
/// computed from fits into 64 bits.
pub open spec fn rewards(staked_time_days: u64, rewards_bps: u16, decimals: u8) -> Result<
    u64,
    ErrorCode,
> {
    let fractions = reward_fractions(staked_time_days, rewards_bps, decimals);
    if fractions <= u64::MAX {
        Ok((fractions / 10000) as u64)
    } else {
        Err(ErrorCode::InvalidRewardsBps)
    }
}

/// Whether the reward can be computed: the scale of the token fits into 64 bits, or is not
/// needed because the days alone already exceed what can be paid.
pub open spec fn rewards_computable(
    staked_time_days: u64,
    rewards_bps: u16,
    decimals: u8,
) -> bool {
    decimals <= 19 || staked_time_days * rewards_bps > u64::MAX
}

/// A power of ten fits into 64 bits exactly up to the nineteenth.
pub(crate) proof fn lemma_pow10(n: nat)
    ensures
        pow(10, n) >= 1,
        n <= 19 ==> pow(10, n) <= 10_000_000_000_000_000_000,
        n > 19 ==> pow(10, n) > u64::MAX,
{
    lemma_pow_positive(10, n);
    assert(pow(10, 19) == 10_000_000_000_000_000_000) by {
        reveal_with_fuel(pow, 20);
    }
    assert(pow(10, 20) == 100_000_000_000_000_000_000) by {
        reveal_with_fuel(pow, 21);
    }
    if n <= 19 {
        lemma_pow_increases(10, n, 19);
    } else {
        lemma_pow_increases(10, 20, n);
    }
}

/// Ten to the power `n`.
fn pow10(n: u8) -> (r: u64)
    requires
        n <= 19,
    ensures
        r == pow(10, n as nat),
{
    let mut r: u64 = 1;
    let mut i: u8 = 0;
    assert(pow(10, 0) == 1) by {
        reveal(pow);
    }
    while i < n
        invariant
            i <= n <= 19,
            r == pow(10, i as nat),
        decreases n - i,
    {
        proof {
            assert(pow(10, (i + 1) as nat) == 10 * pow(10, i as nat)) by {
                reveal(pow);
            }
            lemma_pow10((i + 1) as nat);
        }
        r = r * 10;
        i += 1;
    }
    r
}

/// Whether [`calculate_rewards`] can compute the reward.
pub fn can_calculate(staked_time_days: u64, rewards_bps: u16, decimals: u8) -> (r: bool)
    ensures
        r == rewards_computable(staked_time_days, rewards_bps, decimals),
{
    decimals <= 19 || staked_time_days.checked_mul(rewards_bps as u64).is_none()
}

/// The reward for `staked_time_days` full days at `rewards_bps` ten-thousandths of a token a
/// day, in base units of a token with `decimals` decimals.
pub fn calculate_rewards(staked_time_days: u64, rewards_bps: u16, decimals: u8) -> (r: Result<
    u64,
    ErrorCode,
>)
    requires
        rewards_computable(staked_time_days, rewards_bps, decimals),
    ensures
        r == rewards(staked_time_days, rewards_bps, decimals),
{
    let ghost scale = pow(10, decimals as nat);
    let ghost base = staked_time_days * rewards_bps;
    proof {
        lemma_pow10(decimals as nat);
        assert(base >= 0) by (nonlinear_arith)
            requires
                base == staked_time_days * rewards_bps,
        ;
        assert(base * scale >= base) by (nonlinear_arith)
            requires
                base >= 0,
                scale >= 1,
        ;
    }
    let by_days: u64 = match staked_time_days.checked_mul(rewards_bps as u64) {
        Some(product) => product,
        None => return Err(ErrorCode::InvalidRewardsBps),
    };
    let fractions: u64 = match by_days.checked_mul(pow10(decimals)) {
        Some(product) => product,
        None => return Err(ErrorCode::InvalidRewardsBps),
    };
    Ok(fractions / 10000)
}

/// Whether some attribute has the key `key`, and where the first such attribute stands.
fn find_key(list: &Vec<Attribute>, key: &str) -> (r: Option<usize>)
    ensures
        match r {
            Some(i) => is_first(list_view(list@), key@, i as int),
            None => !has_key(list_view(list@), key@),
        },
{
    let wanted: String = key.to_owned();
    let mut i: usize = 0;
    while i < list.len()
        invariant
            i <= list.len(),
            wanted@ == key@,
            forall|j: int| 0 <= j < i ==> (#[trigger] list_view(list@)[j]).key != key@,
        decreases list.len() - i,
    {
        if list[i].key.eq(&wanted) {
            return Some(i);
        }
        assert(list_view(list@)[i as int].key != key@);
        i += 1;
    }
    None
}

/// The value of the first attribute with the key `key`.
pub fn get_attribute_value(attributes: &Attributes, key: &str) -> (r: Option<String>)
    ensures
        match r {
            Some(value) => first_value(attributes@, key@) == Some(value@),
            None => first_value(attributes@, key@) is None,
        },
{
    match find_key(&attributes.attribute_list, key) {
        Some(i) => {
            proof {
                lemma_first_is(attributes@, key@, i as int);
            }
            Some(attributes.attribute_list[i].value.clone())
        },
        None => None,
    }
}

/// Gives the first attribute with the key `key` the value `value`, or adds an attribute at the
/// end where there is none with that key.
pub fn update_attribute(attributes: &mut Vec<Attribute>, key: &str, value: String)
    ensures
        list_view(final(attributes)@) == updated(list_view(old(attributes)@), key@, value@),
{
    let ghost before = list_view(attributes@);
    let ghost text = value@;
    match find_key(attributes, key) {
        Some(i) => {
            proof {
                lemma_first_is(before, key@, i as int);
            }
            let attribute: Attribute = Attribute { key: key.to_owned(), value };
            attributes.set(i, attribute);
            assert(list_view(attributes@) =~= updated(before, key@, text));
        },
        None => {
            attributes.push(Attribute { key: key.to_owned(), value });
            assert(list_view(attributes@) =~= updated(before, key@, text));
        },
    }
}

} // verus!
