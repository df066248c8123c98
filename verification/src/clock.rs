//! Time as the ledger reads it: whole seconds, counted in periods.

use vstd::prelude::*;
use crate::error::ContractError;

verus! {

/// The seconds in one minute, the unit in which demurrage accrues.
pub const MINUTE: u64 = 60;

/// A point in time, in whole seconds since the epoch.
#[derive(Debug, Clone, Copy, PartialEq, Eq, Structural)]
pub struct Timestamp {
    pub secs: u64,
}

impl Timestamp {
    /// The point in time `seconds` after the epoch.
    pub fn from_seconds(seconds: u64) -> (r: Timestamp)
        ensures
            r.secs == seconds,
    {
        Timestamp { secs: seconds }
    }

    /// The seconds since the epoch.
    pub fn seconds(&self) -> (r: u64)
        ensures
            r == self.secs,
    {
        self.secs
    }

    /// The point in time `addition` seconds later.
    pub fn plus_seconds(&self, addition: u64) -> (r: Timestamp)
        requires
            self.secs + addition <= u64::MAX,
        ensures
            r.secs == self.secs + addition,
    {
        Timestamp { secs: self.secs + addition }
    }
}

/// The whole periods of `period_unit` seconds that lie between `reference` and
/// a later `now`.
pub open spec fn elapsed_spec(now: Timestamp, reference: Timestamp, period_unit: u64) -> int {
    (now.secs - reference.secs) / (period_unit as int)
}

/// The start of period `period_count`, as a number of seconds that may exceed
/// what a timestamp holds.
pub open spec fn boundary_spec(start: Timestamp, period_count: u64, period_length: u64) -> int {
    start.secs + period_count * period_length
}

/// Counts the whole periods of `period_unit` seconds between `reference` and
/// `now`. A `now` before `reference` is a `NonMonotonicTime`.
pub fn elapsed_periods(now: Timestamp, reference: Timestamp, period_unit: u64) -> (r: Result<
    u64,
    ContractError,
>)
    requires
        period_unit > 0,
    ensures
        now.secs < reference.secs ==> r == Err::<u64, ContractError>(
            ContractError::NonMonotonicTime,
        ),
        now.secs >= reference.secs ==> r == Ok::<u64, ContractError>(
            elapsed_spec(now, reference, period_unit) as u64,
        ),
        now.secs >= reference.secs ==> 0 <= elapsed_spec(now, reference, period_unit) <= u64::MAX,
        now == reference ==> r == Ok::<u64, ContractError>(0),
{
    if now.secs < reference.secs {
        return Err(ContractError::NonMonotonicTime);
    }
    let span: u64 = now.secs - reference.secs;
    proof {
        lemma_elapsed_bounds(now, reference, period_unit);
    }
    Ok(span / period_unit)
}

/// Counts the whole minutes between `target` and `now_timestamp`. A
/// `now_timestamp` before `target` is a `NonMonotonicTime`.
pub fn demurrage_cycles(now_timestamp: Timestamp, target: Timestamp) -> (r: Result<
    u64,
    ContractError,
>)
    ensures
        now_timestamp.secs < target.secs ==> r == Err::<u64, ContractError>(
            ContractError::NonMonotonicTime,
        ),
        now_timestamp.secs >= target.secs ==> r == Ok::<u64, ContractError>(
            elapsed_spec(now_timestamp, target, MINUTE) as u64,
        ),
        now_timestamp.secs >= target.secs ==> 0 <= elapsed_spec(now_timestamp, target, MINUTE)
            <= u64::MAX,
{
    elapsed_periods(now_timestamp, target, MINUTE)
}

/// Counts the whole minutes that have passed between `last_timestamp` and
/// `now_timestamp`. A `now_timestamp` before `last_timestamp` is a
/// `NonMonotonicTime`.
pub fn get_minutes_delta(now_timestamp: Timestamp, last_timestamp: Timestamp) -> (r: Result<
    u64,
    ContractError,
>)
    ensures
        now_timestamp.secs < last_timestamp.secs ==> r == Err::<u64, ContractError>(
            ContractError::NonMonotonicTime,
        ),
        now_timestamp.secs >= last_timestamp.secs ==> r == Ok::<u64, ContractError>(
            elapsed_spec(now_timestamp, last_timestamp, MINUTE) as u64,
        ),
        now_timestamp.secs >= last_timestamp.secs ==> 0 <= elapsed_spec(
            now_timestamp,
            last_timestamp,
            MINUTE,
        ) <= u64::MAX,
{
    elapsed_periods(now_timestamp, last_timestamp, MINUTE)
}

/// The time at which period `period_count` starts:
/// `start_timestamp + period_count * period_minute` seconds. A time past what
/// a timestamp holds is an `ArithmeticOverflow`.
pub fn get_period_time_delta(start_timestamp: Timestamp, period_count: u64, period_minute: u64) -> (r:
    Result<Timestamp, ContractError>)
    ensures
        boundary_spec(start_timestamp, period_count, period_minute) > u64::MAX ==> r == Err::<
            Timestamp,
            ContractError,
        >(ContractError::ArithmeticOverflow),
        boundary_spec(start_timestamp, period_count, period_minute) <= u64::MAX ==> r == Ok::<
            Timestamp,
            ContractError,
        >(Timestamp { secs: boundary_spec(start_timestamp, period_count, period_minute) as u64 }),
{
    assert(period_count * period_minute >= 0) by (nonlinear_arith);
    let offset: u64 = match period_count.checked_mul(period_minute) {
        Some(p) => p,
        None => {
            return Err(ContractError::ArithmeticOverflow);
        },
    };
    match start_timestamp.secs.checked_add(offset) {
        Some(s) => Ok(Timestamp { secs: s }),
        None => Err(ContractError::ArithmeticOverflow),
    }
}

/// Between a time and a later one there is a whole number of periods that is
/// not negative, fits in 64 bits, and whose span does not reach past the later
/// time.
pub proof fn lemma_elapsed_bounds(now: Timestamp, reference: Timestamp, period_unit: u64)
    requires
        period_unit > 0,
        now.secs >= reference.secs,
    ensures
        0 <= elapsed_spec(now, reference, period_unit) <= now.secs - reference.secs,
        elapsed_spec(now, reference, period_unit) * period_unit <= now.secs - reference.secs,
        now.secs - reference.secs < (elapsed_spec(now, reference, period_unit) + 1) * period_unit,
{
    let span = now.secs - reference.secs;
    let unit = period_unit as int;
    assert(0 <= span / unit <= span && (span / unit) * unit <= span && span < (span / unit + 1)
        * unit) by (nonlinear_arith)
        requires
            span >= 0,
            unit > 0,
    ;
}

/// No period lies between a time and itself.
pub proof fn lemma_elapsed_zero(now: Timestamp, period_unit: u64)
    requires
        period_unit > 0,
    ensures
        elapsed_spec(now, now, period_unit) == 0,
{
    let unit = period_unit as int;
    assert(0int / unit == 0) by (nonlinear_arith)
        requires
            unit > 0,
    ;
}

/// The count of elapsed periods never falls as time goes on: of two times that
/// are not before the reference, the later has at least as many periods behind
/// it.
pub proof fn lemma_elapsed_monotonic(
    earlier: Timestamp,
    later: Timestamp,
    reference: Timestamp,
    period_unit: u64,
)
    requires
        period_unit > 0,
        reference.secs <= earlier.secs <= later.secs,
    ensures
        elapsed_spec(earlier, reference, period_unit) <= elapsed_spec(
            later,
            reference,
            period_unit,
        ),
{
    let a = earlier.secs - reference.secs;
    let b = later.secs - reference.secs;
    let unit = period_unit as int;
    assert(a / unit <= b / unit) by (nonlinear_arith)
        requires
            0 <= a <= b,
            unit > 0,
    ;
}

} // verus!
