//! Decimal notation of timestamps and counters.
//!
//! Staking records keep their numbers as text. This module says which texts denote which
//! numbers, and reads and writes them with the conversions of the standard library.

use vstd::prelude::*;

verus! {

/// Whether `c` is one of the ten ASCII digits.
pub open spec fn is_digit(c: char) -> bool {
    '0' <= c <= '9'
}

/// Whether `s` is a digit string: at least one digit, and nothing else.
pub open spec fn is_digits(s: Seq<char>) -> bool {
    &&& s.len() > 0
    &&& forall|i: int| 0 <= i < s.len() ==> is_digit(#[trigger] s[i])
}

/// The number that a digit string denotes in base ten.
pub open spec fn digits_value(s: Seq<char>) -> nat
    decreases s.len(),
{
    if s.len() == 0 {
        0
    } else {
        (10 * digits_value(s.drop_last()) + (s.last() as int - '0' as int)) as nat
    }
}

/// The integer that `s` denotes: digits after an optional `+`, or after a `-` where
/// `negative_allowed`.
pub open spec fn denoted(s: Seq<char>, negative_allowed: bool) -> Option<int> {
    if s.len() > 0 && (s[0] == '+' || (s[0] == '-' && negative_allowed)) {
        if !is_digits(s.skip(1)) {
            None
        } else if s[0] == '-' {
            Some(-digits_value(s.skip(1)))
        } else {
            Some(digits_value(s.skip(1)) as int)
        }
    } else if is_digits(s) {
        Some(digits_value(s) as int)
    } else {
        None
    }
}

/// The `i64` that `s` denotes, if it denotes an integer of that range.
pub open spec fn parsed_i64(s: Seq<char>) -> Option<i64> {
    match denoted(s, true) {
        Some(n) => if i64::MIN <= n <= i64::MAX {
            Some(n as i64)
        } else {
            None
        },
        None => None,
    }
}

/// The `u32` that `s` denotes, if it denotes an integer of that range.
pub open spec fn parsed_u32(s: Seq<char>) -> Option<u32> {
    match denoted(s, false) {
        Some(n) => if n <= u32::MAX {
            Some(n as u32)
        } else {
            None
        },
        None => None,
    }
}

/// The digit that stands for `d`.
pub open spec fn digit_char(d: int) -> char
    recommends
        0 <= d < 10,
{
    ('0' as int + d) as char
}

/// The decimal notation of a natural number, without leading zeros.
pub open spec fn digits_of(n: nat) -> Seq<char>
    decreases n,
{
    if n < 10 {
        seq![digit_char(n as int)]
    } else {
        digits_of(n / 10).push(digit_char((n % 10) as int))
    }
}

/// The decimal notation of an integer: a `-` where it is negative, then its magnitude.
pub open spec fn notation(n: int) -> Seq<char> {
    if n < 0 {
        seq!['-'] + digits_of((-n) as nat)
    } else {
        digits_of(n as nat)
    }
}

/// Calls `str::parse::<i64>`: an optional sign and then only digits are read as the number
/// that they denote; anything else, and a number out of range, is refused.
#[verifier::external_body]
pub(crate) fn parse_i64(s: &str) -> (r: Option<i64>)
    ensures
        r == parsed_i64(s@),
{
    s.parse::<i64>().ok()
}

/// Calls `str::parse::<u32>`: an optional `+` and then only digits are read as the number
/// that they denote; anything else, and a number out of range, is refused.
#[verifier::external_body]
pub(crate) fn parse_u32(s: &str) -> (r: Option<u32>)
    ensures
        r == parsed_u32(s@),
{
    s.parse::<u32>().ok()
}

/// Calls `i64::to_string`, which writes the number in decimal notation.
#[verifier::external_body]
pub(crate) fn i64_to_string(n: i64) -> (r: String)
    ensures
        r@ == notation(n as int),
{
    n.to_string()
}

/// Calls `u32::to_string`, which writes the number in decimal notation.
#[verifier::external_body]
pub(crate) fn u32_to_string(n: u32) -> (r: String)
    ensures
        r@ == notation(n as int),
{
    n.to_string()
}

/// Decimal notation is a digit string that denotes the number it was made from.
proof fn lemma_digits_of(n: nat)
    ensures
        is_digits(digits_of(n)),
        digits_value(digits_of(n)) == n,
    decreases n,
{
    reveal_with_fuel(digits_value, 2);
    if n < 10 {
        assert(digits_of(n).drop_last() =~= Seq::<char>::empty());
    } else {
        lemma_digits_of(n / 10);
        assert(digits_of(n).drop_last() =~= digits_of(n / 10));
    }
}

/// Reading back a written number gives the number: what `i64_to_string` writes, `parse_i64`
/// reads as the same number.
pub proof fn i64_notation_round_trip(n: i64)
    ensures
        parsed_i64(notation(n as int)) == Some(n),
{
    if n < 0 {
        lemma_digits_of((-n) as nat);
        assert(notation(n as int).skip(1) =~= digits_of((-n) as nat));
    } else {
        lemma_digits_of(n as nat);
        assert(is_digit(notation(n as int)[0]));
    }
}

/// Reading back a written counter gives the counter: what `u32_to_string` writes, `parse_u32`
/// reads as the same number.
pub proof fn u32_notation_round_trip(n: u32)
    ensures
        parsed_u32(notation(n as int)) == Some(n),
{
    lemma_digits_of(n as nat);
    assert(is_digit(notation(n as int)[0]));
}

} // verus!
