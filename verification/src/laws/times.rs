//! Laws of the times in a staking record.

use crate::attributes::{last_value, AttributeView};
use crate::laws::attribute_lists::pass_finds_the_last;
use crate::laws::vocabulary::{
    days_have_passed, earns_from, full_days_between, says_staked, says_time, stands_last, tells,
    times_parse,
};
use crate::record::{
    full_days, last_claimed_key, paid_until, staked_at_key, staked_key, timestamp,
    timestamps_readable, whole_days,
};
use vstd::prelude::*;

verus! {

/// The time that a list says for a key is the one that is read from it, and there is no other.
pub proof fn the_time_said_is_read(list: Seq<AttributeView>, key: Seq<char>, time: i64)
    requires
        says_time(list, key, time),
    ensures
        timestamp(list, key) == time,
{
    pass_finds_the_last(list, key, 0);
    if last_value(list, key) is Some {
        let i = choose|i: int|
            #![trigger stands_last(list, key, i)]
            stands_last(list, key, i) && crate::decimal::parsed_i64(list[i].value) == Some(time);
        pass_finds_the_last(list, key, i);
    }
}

/// A staking record whose times can be read tells when the asset was staked, when rewards were
/// last claimed, and from when on the asset earns.
pub proof fn readable_times_are_told(list: Seq<AttributeView>)
    requires
        times_parse(list),
    ensures
        tells(list, timestamp(list, staked_at_key()), timestamp(list, last_claimed_key())),
        timestamps_readable(list),
{
    lemma_time_is_said(list, staked_at_key());
    lemma_time_is_said(list, last_claimed_key());
}

/// An asset earns from its last claim on, or from staking on where it has none.
pub proof fn earning_starts_with_the_last_claim(
    list: Seq<AttributeView>,
    since: i64,
    claimed: i64,
)
    requires
        tells(list, since, claimed),
    ensures
        paid_until(list) == earns_from(since, claimed),
{
    the_time_said_is_read(list, staked_at_key(), since);
    the_time_said_is_read(list, last_claimed_key(), claimed);
}

/// Whether the last attribute `staked` is `true` is what decides whether an asset is staked.
pub proof fn the_last_word_on_staking_counts(list: Seq<AttributeView>)
    ensures
        says_staked(list) <==> last_value(list, staked_key()) == Some("true"@),
{
    pass_finds_the_last(list, "staked"@, 0);
    if says_staked(list) {
        let i = choose|i: int|
            #![trigger stands_last(list, "staked"@, i)]
            stands_last(list, "staked"@, i) && list[i].value == "true"@;
        pass_finds_the_last(list, "staked"@, i);
    }
}

/// A full day has 86400 seconds. A negative number of seconds is read without its sign, modulo
/// 2 to the power 64.
pub proof fn full_days_are_counted(from: i64, now: i64, days: int)
    requires
        now - from >= i64::MIN,
    ensures
        full_days_between(from, now, days) <==> full_days(now - from) == days,
{
}

/// A number of days has passed once the whole days in the seconds between reach it.
pub proof fn passed_days_are_counted(from: i64, now: i64, days: i64)
    ensures
        days_have_passed(from, now, days) <==> whole_days(now - from) >= days,
{
}

/// A readable time is said by the list.
proof fn lemma_time_is_said(list: Seq<AttributeView>, key: Seq<char>)
    requires
        times_parse(list),
        key == "staked_at"@ || key == "last_claimed_at"@,
    ensures
        says_time(list, key, timestamp(list, key)),
{
    pass_finds_the_last(list, key, 0);
    if last_value(list, key) is Some {
        let k = choose|k: int|
            #![trigger stands_last(list, key, k)]
            stands_last(list, key, k) && last_value(list, key) == Some(list[k].value);
        assert(stands_last(list, key, k));
        assert(crate::decimal::parsed_i64(list[k].value) is Some);
    }
}

} // verus!
