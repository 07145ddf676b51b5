//! Laws of an asset that is claimed on any number of times before it is unstaked.

use crate::attributes::{at_most_one, last_value, AttributeView};
use crate::error::ErrorCode;
use crate::instructions::claim_rewards::{
    next_claim_time, settlement, terms_of_claim, ClaimTerms,
};
use crate::instructions::unstake::{days_owed, first_fault};
use crate::laws::claiming::{claim_moves_by_paid_days, settlement_is_read_back};
use crate::laws::unstaking::lemma_settlement_brings_no_fault;
use crate::record::{
    full_days, last_claimed_key, paid_until, staked_at_key, staked_key, timestamp,
    timestamps_readable,
};
use crate::utils::SECONDS_PER_DAY;
use vstd::prelude::*;

verus! {

/// What a series of claims comes to.
pub struct History {
    /// The attributes of the asset after the last claim.
    pub list: Seq<AttributeView>,
    /// The days that the claims paid for, all together.
    pub days: int,
    /// The time up to which the last claim that paid for a day has paid.
    pub until: int,
    /// How many of the claims paid for the seconds of a negative interval.
    pub behind: int,
}

/// The attributes of an asset after a claim. A claim that pays for no day stores nothing.
pub open spec fn after_claim(list: Seq<AttributeView>, terms: ClaimTerms) -> Result<
    Seq<AttributeView>,
    ErrorCode,
> {
    if terms.days == 0 {
        Ok(list)
    } else {
        settlement(list, terms)
    }
}

/// What claims at these times, one after the other, come to; the reason for which the first one
/// is refused that is.
pub open spec fn history(list: Seq<AttributeView>, times: Seq<i64>) -> Result<History, ErrorCode>
    decreases times.len(),
{
    if times.len() == 0 {
        Ok(History { list, days: 0, until: paid_until(list) as int, behind: 0 })
    } else {
        match history(list, times.drop_last()) {
            Err(e) => Err(e),
            Ok(before) => match terms_of_claim(before.list, times.last()) {
                Err(e) => Err(e),
                Ok(terms) => match after_claim(before.list, terms) {
                    Err(e) => Err(e),
                    Ok(after) => Ok(
                        History {
                            list: after,
                            days: before.days + terms.days,
                            until: next_claim_time(terms),
                            behind: before.behind + if terms.days * SECONDS_PER_DAY > i64::MAX {
                                1int
                            } else {
                                0
                            },
                        },
                    ),
                },
            },
        }
    }
}

/// Whether the attributes tell after each of the claims up to when it has paid. An asset that
/// is paid up to the time 0 tells when it was staked instead.
pub open spec fn told(list: Seq<AttributeView>, times: Seq<i64>) -> bool
    decreases times.len(),
{
    &&& times.len() > 0 ==> told(list, times.drop_last())
    &&& history(list, times) matches Ok(h) ==> paid_until(h.list) == h.until
}

/// Whether no clock was set back: rewards are paid up to `start` before the first of the times,
/// none of them lies before an earlier one, and none behind `end`.
pub open spec fn in_order(start: int, times: Seq<i64>, end: int) -> bool {
    &&& start <= end
    &&& forall|i: int| 0 <= i < times.len() ==> start <= #[trigger] times[i] <= end
    &&& forall|i: int, j: int| 0 <= i <= j < times.len() ==> times[i] <= times[j]
}

/// 1 where the time `now` lies before the time `until`.
pub open spec fn lies_before(now: int, until: int) -> int {
    if now < until {
        1
    } else {
        0
    }
}

/// Every day is paid exactly once: the days that any series of claims pays for, and those that
/// unstaking then pays for, come to the full days since rewards were last paid before them, or
/// since staking where none were. Where a time lies before that up to which rewards are paid,
/// the seconds of a negative interval are paid for: if that happens, it must happen as often
/// with the claims as without.
pub proof fn every_day_is_paid_once(
    list: Seq<AttributeView>,
    times: Seq<i64>,
    end: i64,
    freeze_period: i64,
)
    requires
        at_most_one(list, last_claimed_key()),
        history(list, times) is Ok,
        told(list, times),
        days_owed(history(list, times)->Ok_0.list, end, freeze_period) is Ok,
        history(list, times)->Ok_0.behind + lies_before(
            end as int,
            paid_until(history(list, times)->Ok_0.list) as int,
        ) == lies_before(end as int, paid_until(list) as int),
    ensures
        ({
            let claimed = history(list, times)->Ok_0;
            let rest = days_owed(claimed.list, end, freeze_period)->Ok_0;
            &&& claimed.days + rest == full_days(end - paid_until(list))
            &&& paid_until(list) == timestamp(list, staked_at_key()) ==> claimed.days + rest
                == full_days(end - timestamp(list, staked_at_key()))
        }),
{
    lemma_history(list, times);
}

/// While no clock is set back, every claim on an asset that could be unstaked in the end is
/// granted, the asset can still be unstaked, and the days that all of the claims pay for, and
/// those that unstaking then pays for, come to the full days since rewards were last paid
/// before them, or since staking where none were.
pub proof fn claims_and_unstaking_pay_every_day(
    list: Seq<AttributeView>,
    times: Seq<i64>,
    end: i64,
    freeze_period: i64,
)
    requires
        at_most_one(list, last_claimed_key()),
        terms_of_claim(list, end) is Ok,
        days_owed(list, end, freeze_period) is Ok,
        in_order(paid_until(list) as int, times, end as int),
    ensures
        history(list, times) is Ok,
        days_owed(history(list, times)->Ok_0.list, end, freeze_period) is Ok,
        ({
            let claimed = history(list, times)->Ok_0;
            let rest = days_owed(claimed.list, end, freeze_period)->Ok_0;
            &&& claimed.days + rest == full_days(end - paid_until(list))
            &&& claimed.days + rest == days_owed(list, end, freeze_period)->Ok_0
            &&& paid_until(list) == timestamp(list, staked_at_key()) ==> claimed.days + rest
                == full_days(end - timestamp(list, staked_at_key()))
        }),
{
    lemma_in_order(list, times, end, freeze_period);
    every_day_is_paid_once(list, times, end, freeze_period);
}

/// A series of claims moves the time up to which rewards are paid by the days that it pays for.
proof fn lemma_history(list: Seq<AttributeView>, times: Seq<i64>)
    requires
        at_most_one(list, last_claimed_key()),
        history(list, times) is Ok,
        told(list, times),
    ensures
        ({
            let h = history(list, times)->Ok_0;
            &&& at_most_one(h.list, last_claimed_key())
            &&& paid_until(h.list) == h.until
            &&& h.until == paid_until(list) + h.days * SECONDS_PER_DAY - h.behind
                * 0x1_0000_0000_0000_0000
        }),
    decreases times.len(),
{
    if times.len() > 0 {
        lemma_history(list, times.drop_last());
        let before = history(list, times.drop_last())->Ok_0;
        let terms = terms_of_claim(before.list, times.last())->Ok_0;
        if terms.days > 0 {
            settlement_is_read_back(before.list, terms);
        }
    }
}

/// While no clock is set back, every claim is granted, and nothing comes to stand against
/// unstaking.
proof fn lemma_in_order(list: Seq<AttributeView>, times: Seq<i64>, end: i64, freeze_period: i64)
    requires
        at_most_one(list, last_claimed_key()),
        terms_of_claim(list, end) is Ok,
        first_fault(list, end, freeze_period) is None,
        in_order(paid_until(list) as int, times, end as int),
    ensures
        history(list, times) is Ok,
        told(list, times),
        ({
            let h = history(list, times)->Ok_0;
            &&& at_most_one(h.list, last_claimed_key())
            &&& timestamps_readable(h.list)
            &&& last_value(h.list, staked_key()) == Some("true"@)
            &&& first_fault(h.list, end, freeze_period) is None
            &&& h.behind == 0
            &&& paid_until(list) <= paid_until(h.list) <= if times.len() == 0 {
                paid_until(list)
            } else {
                times.last()
            }
        }),
    decreases times.len(),
{
    if times.len() > 0 {
        let front = times.drop_last();
        let now = times.last();
        assert forall|i: int| 0 <= i < front.len() implies paid_until(list) <= #[trigger] front[i]
            <= end by {
            assert(front[i] == times[i]);
        }
        assert(times[times.len() - 1] == now);
        lemma_in_order(list, front, end, freeze_period);
        let before = history(list, front)->Ok_0;
        if front.len() > 0 {
            assert(front.last() == times[times.len() - 2]);
        }
        assert(paid_until(before.list) <= now);
        let terms = terms_of_claim(before.list, now)->Ok_0;
        claim_moves_by_paid_days(before.list, now);
        if terms.days > 0 {
            settlement_is_read_back(before.list, terms);
            lemma_settlement_brings_no_fault(before.list, terms, end, freeze_period);
        }
    }
}

} // verus!
