//! The words in which the laws speak of attribute lists, of time and of rewards.
//!
//! They say what a position, a text or a number is, and are used by laws alone.

use crate::attributes::AttributeView;
use crate::decimal::parsed_i64;
use vstd::arithmetic::power::pow;
use vstd::prelude::*;

verus! {

/// No attribute has the key `key`.
pub open spec fn absent(list: Seq<AttributeView>, key: Seq<char>) -> bool {
    forall|i: int| 0 <= i < list.len() ==> (#[trigger] list[i]).key != key
}

/// The first attribute with the key `key` stands at `i`.
pub open spec fn stands_first(list: Seq<AttributeView>, key: Seq<char>, i: int) -> bool {
    &&& 0 <= i < list.len()
    &&& list[i].key == key
    &&& forall|j: int| 0 <= j < i ==> (#[trigger] list[j]).key != key
}

/// The last attribute with the key `key` stands at `i`.
pub open spec fn stands_last(list: Seq<AttributeView>, key: Seq<char>, i: int) -> bool {
    &&& 0 <= i < list.len()
    &&& list[i].key == key
    &&& forall|j: int| i < j < list.len() ==> (#[trigger] list[j]).key != key
}

/// `after` is `before` but for the value of the first attribute with the key `key`, which is
/// `value`, or for a new attribute at the end where there was none.
pub open spec fn differs_by(
    before: Seq<AttributeView>,
    after: Seq<AttributeView>,
    key: Seq<char>,
    value: Seq<char>,
) -> bool {
    ||| exists|i: int|
        #![trigger stands_first(before, key, i)]
        stands_first(before, key, i) && after == before.update(i, AttributeView { key, value })
    ||| absent(before, key) && after == before.push(AttributeView { key, value })
}

/// The last attribute with the key `key` holds the time `time`; without one, the time is 0.
pub open spec fn says_time(list: Seq<AttributeView>, key: Seq<char>, time: i64) -> bool {
    ||| absent(list, key) && time == 0
    ||| exists|i: int|
        #![trigger stands_last(list, key, i)]
        stands_last(list, key, i) && parsed_i64(list[i].value) == Some(time)
}

/// The last attribute `staked` is `true`.
pub open spec fn says_staked(list: Seq<AttributeView>) -> bool {
    exists|i: int|
        #![trigger stands_last(list, "staked"@, i)]
        stands_last(list, "staked"@, i) && list[i].value == "true"@
}

/// Every attribute `staked_at` and every attribute `last_claimed_at` holds a time.
pub open spec fn times_parse(list: Seq<AttributeView>) -> bool {
    forall|i: int|
        0 <= i < list.len() && ((#[trigger] list[i]).key == "staked_at"@ || list[i].key
            == "last_claimed_at"@) ==> parsed_i64(list[i].value) is Some
}

/// An asset with these attributes was staked at `since`, and its last claim is `claimed`, where
/// 0 stands for none.
pub open spec fn tells(list: Seq<AttributeView>, since: i64, claimed: i64) -> bool {
    &&& times_parse(list)
    &&& says_time(list, "staked_at"@, since)
    &&& says_time(list, "last_claimed_at"@, claimed)
}

/// The time from which on an asset earns: that of the last claim, else that of staking.
pub open spec fn earns_from(since: i64, claimed: i64) -> i64 {
    if claimed != 0 {
        claimed
    } else {
        since
    }
}

/// `days` full days lie between the two times. Where `now` is the earlier one, the seconds
/// between them are counted modulo 2 to the power 64.
pub open spec fn full_days_between(from: i64, now: i64, days: int) -> bool {
    let seconds = if from <= now {
        now - from
    } else {
        now - from + 0x1_0000_0000_0000_0000
    };
    days * 86400 <= seconds < (days + 1) * 86400
}

/// At least `days` days of 86400 seconds lie between the two times, where a part of a day
/// counts towards the smaller number of days in size.
pub open spec fn days_have_passed(from: i64, now: i64, days: i64) -> bool {
    if days > 0 {
        now - from >= days * 86400
    } else {
        now - from > (days - 1) * 86400
    }
}

/// The attribute does not stand against unstaking at the time `now`.
pub open spec fn lets_go(attribute: AttributeView, now: i64, freeze_period: i64) -> bool {
    &&& attribute.key == "staked"@ ==> attribute.value == "true"@
    &&& attribute.key == "staked_at"@ ==> {
        &&& parsed_i64(attribute.value) matches Some(since)
        &&& i64::MIN <= now - since <= i64::MAX
        &&& days_have_passed(since, now, freeze_period)
    }
    &&& attribute.key == "last_claimed_at"@ ==> parsed_i64(attribute.value) is Some
}

/// Nothing among the attributes stands against unstaking at the time `now`.
pub open spec fn all_let_go(list: Seq<AttributeView>, now: i64, freeze_period: i64) -> bool {
    forall|i: int| 0 <= i < list.len() ==> lets_go(#[trigger] list[i], now, freeze_period)
}

/// The attributes outside of the staking record, in their order, and behind them the record of
/// an asset that is not staked.
pub open spec fn without_record(list: Seq<AttributeView>) -> Seq<AttributeView> {
    list.filter(
        |a: AttributeView|
            a.key != "staked"@ && a.key != "staked_at"@ && a.key != "last_claimed_at"@,
    ) + seq![
        AttributeView { key: "staked"@, value: "false"@ },
        AttributeView { key: "staked_at"@, value: "0"@ },
        AttributeView { key: "last_claimed_at"@, value: "0"@ },
    ]
}

/// The reward in ten-thousandths of the smallest unit of the token.
pub open spec fn earned(days: int, rewards_bps: u16, decimals: u8) -> int {
    days * rewards_bps * pow(10, decimals as nat)
}

/// `amount` is the reward in full units of the token's smallest.
pub open spec fn is_reward(amount: u64, days: int, rewards_bps: u16, decimals: u8) -> bool {
    amount * 10000 <= earned(days, rewards_bps, decimals) < (amount + 1) * 10000
}

/// The scale of the token fits into 64 bits, or the product exceeds them without it.
pub open spec fn has_reward(days: int, rewards_bps: u16, decimals: u8) -> bool {
    pow(10, decimals as nat) <= 0xffff_ffff_ffff_ffff || days * rewards_bps
        > 0xffff_ffff_ffff_ffff
}

/// The seeds of the configuration of a collection: the text `config`, the address of the
/// collection, and a bump seed.
pub open spec fn config_signer(collection: Seq<u8>, bump: u8) -> Seq<Seq<u8>> {
    seq![seq![99u8, 111, 110, 102, 105, 103], collection, seq![bump]]
}

/// The seeds of the update authority of a collection: the text `update_authority`, the address
/// of the collection, and a bump seed.
pub open spec fn authority_signer(collection: Seq<u8>, bump: u8) -> Seq<Seq<u8>> {
    seq![
        seq![117u8, 112, 100, 97, 116, 101, 95, 97, 117, 116, 104, 111, 114, 105, 116, 121],
        collection,
        seq![bump],
    ]
}

/// The seeds of the mint of a configuration: the text `rewards_mint`, the address of the
/// configuration, and a bump seed.
pub open spec fn mint_signer(config: Seq<u8>, bump: u8) -> Seq<Seq<u8>> {
    seq![seq![114u8, 101, 119, 97, 114, 100, 115, 95, 109, 105, 110, 116], config, seq![bump]]
}

} // verus!
