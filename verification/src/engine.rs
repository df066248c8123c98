//! The demurrage engine: it brings the schedule up to a given time, rolls the
//! period over where its boundary has been passed, and says what the sink
//! account is owed.
//!
//! Every function takes the schedule and the time it is to be brought up to,
//! and either completes or leaves the schedule as it was.

use vstd::prelude::*;
use crate::clock::{
    boundary_spec, demurrage_cycles, elapsed_spec, get_minutes_delta, get_period_time_delta,
    lemma_elapsed_bounds, Timestamp, MINUTE,
};
use crate::error::ContractError;
use crate::math::{
    decay_by, decay_by_spec, grow_by, grow_by_spec, to_base_amount, to_base_amount_spec,
    DEMURRAGE_SCALE, RESOLUTION_FACTOR,
};
use crate::state::State;

verus! {

/// The minutes of decay that are applied at `now`: all that have elapsed, or
/// `rounds` of them where `rounds` is not zero and smaller.
pub open spec fn decay_periods(state: State, now: Timestamp, rounds: u64) -> int {
    let elapsed = elapsed_spec(now, state.demurrage_timestamp, MINUTE);
    if rounds > 0 && rounds < elapsed {
        rounds as int
    } else {
        elapsed
    }
}

/// The schedule after decay has been applied up to `now`, and whether anything
/// was applied.
pub open spec fn apply_demurrage_spec(state: State, now: Timestamp, rounds: u64) -> Result<
    (State, bool),
    ContractError,
> {
    let periods = decay_periods(state, now, rounds);
    if now.secs < state.demurrage_timestamp.secs {
        Err(ContractError::NonMonotonicTime)
    } else if periods == 0 {
        Ok((state, false))
    } else {
        match decay_by_spec(state.demurrage_amount, state.tax_level, periods as u64) {
            Err(e) => Err(e),
            Ok(amount) => if amount == 0 {
                Err(ContractError::DecayFactorNonPositive)
            } else {
                Ok(
                    (
                        State {
                            demurrage_amount: amount,
                            demurrage_timestamp: Timestamp {
                                secs: (state.demurrage_timestamp.secs + periods * MINUTE) as u64,
                            },
                            ..state
                        },
                        true,
                    ),
                )
            },
        }
    }
}

/// What the sink account is owed: the share of the total supply that the
/// factor has lost against one whole unit, and nothing where it has lost
/// nothing.
pub open spec fn distribution_spec(total_supply: u128, demurrage_amount: u128) -> Result<
    u128,
    ContractError,
> {
    let held = demurrage_amount * DEMURRAGE_SCALE;
    if held >= RESOLUTION_FACTOR {
        Ok(0u128)
    } else if total_supply * (RESOLUTION_FACTOR - held) > u128::MAX {
        Err(ContractError::ArithmeticOverflow)
    } else {
        Ok((total_supply * (RESOLUTION_FACTOR - held) / (RESOLUTION_FACTOR as int)) as u128)
    }
}

/// The whole minutes by which `now` is past the start of the current period,
/// and none while that start lies ahead.
pub open spec fn rollover_periods(state: State, now: Timestamp) -> int {
    let boundary = boundary_spec(state.start_timestamp, state.current_period, state.period_minute);
    if now.secs >= boundary {
        (now.secs - boundary) / (MINUTE as int)
    } else {
        0
    }
}

/// The schedule after the period has rolled over at `now`, and what the sink
/// account is owed; `None` for the latter where the period stays.
pub open spec fn rollover_spec(state: State, now: Timestamp, total_supply: u128) -> Result<
    (State, Option<u128>),
    ContractError,
> {
    let periods = rollover_periods(state, now);
    if boundary_spec(state.start_timestamp, state.current_period, state.period_minute)
        > u64::MAX {
        Err(ContractError::ArithmeticOverflow)
    } else if periods == 0 {
        Ok((state, None))
    } else {
        match grow_by_spec(state.demurrage_amount, state.tax_level, periods as u64) {
            Err(e) => Err(e),
            Ok(amount) => if amount == 0 {
                Err(ContractError::DecayFactorNonPositive)
            } else if state.current_period == u64::MAX {
                Err(ContractError::ArithmeticOverflow)
            } else {
                match distribution_spec(total_supply, amount) {
                    Err(e) => Err(e),
                    Ok(distribution) => Ok(
                        (
                            State {
                                demurrage_amount: amount,
                                current_period: (state.current_period + 1) as u64,
                                ..state
                            },
                            Some(distribution),
                        ),
                    ),
                }
            },
        }
    }
}

/// The schedule after `advance` at `now`, and what the sink account is owed.
/// Where no whole minute has passed since decay was last applied, nothing
/// changes and nothing is owed.
pub open spec fn advance_spec(state: State, now: Timestamp, total_supply: u128) -> Result<
    (State, Option<u128>),
    ContractError,
> {
    match apply_demurrage_spec(state, now, 0) {
        Err(e) => Err(e),
        Ok((decayed, applied)) => if applied {
            rollover_spec(decayed, now, total_supply)
        } else {
            Ok((state, None))
        },
    }
}

/// Applies the decay of the whole minutes between the time of the last decay
/// and `now_timestamp`, of at most `rounds` of them where `rounds` is not zero,
/// and moves the time of the last decay on by as many minutes. Returns whether
/// anything was applied. On an error the schedule stays as it was: a
/// `NonMonotonicTime` where `now_timestamp` is before the last decay, a
/// `DecayFactorNonPositive` where the factor would reach zero, or what
/// `decay_by` reports.
pub fn apply_demurrage_limited(state: &mut State, now_timestamp: Timestamp, rounds: u64) -> (r:
    Result<bool, ContractError>)
    ensures
        match apply_demurrage_spec(*old(state), now_timestamp, rounds) {
            Ok((next, applied)) => r == Ok::<bool, ContractError>(applied) && *final(state)
                == next,
            Err(e) => r == Err::<bool, ContractError>(e) && *final(state) == *old(state),
        },
        old(state).wf() ==> final(state).wf(),
{
    let elapsed: u64 = match get_minutes_delta(now_timestamp, state.demurrage_timestamp) {
        Ok(n) => n,
        Err(e) => {
            return Err(e);
        },
    };
    if elapsed == 0 {
        return Ok(false);
    }
    let period_count: u64 = if rounds > 0 && rounds < elapsed {
        rounds
    } else {
        elapsed
    };
    let amount: u128 = match decay_by(state.demurrage_amount, state.tax_level, period_count) {
        Ok(a) => a,
        Err(e) => {
            return Err(e);
        },
    };
    if amount == 0 {
        return Err(ContractError::DecayFactorNonPositive);
    }
    proof {
        lemma_elapsed_bounds(now_timestamp, state.demurrage_timestamp, MINUTE);
    }
    state.demurrage_amount = amount;
    state.demurrage_timestamp = state.demurrage_timestamp.plus_seconds(period_count * MINUTE);
    Ok(true)
}

/// Applies the decay of all whole minutes between the time of the last decay
/// and `now_timestamp`.
pub fn apply_demurrage(state: &mut State, now_timestamp: Timestamp) -> (r: Result<
    bool,
    ContractError,
>)
    ensures
        match apply_demurrage_spec(*old(state), now_timestamp, 0) {
            Ok((next, applied)) => r == Ok::<bool, ContractError>(applied) && *final(state)
                == next,
            Err(e) => r == Err::<bool, ContractError>(e) && *final(state) == *old(state),
        },
        old(state).wf() ==> final(state).wf(),
{
    apply_demurrage_limited(state, now_timestamp, 0)
}

/// What the sink account is owed at the schedule's factor:
/// `total_supply * (RESOLUTION_FACTOR - factor * DEMURRAGE_SCALE) /
/// RESOLUTION_FACTOR`, and nothing where the factor is one whole unit or more.
/// A product that does not fit in 128 bits is an `ArithmeticOverflow`.
pub fn get_distribution(total_supply: u128, state: &State) -> (r: Result<u128, ContractError>)
    ensures
        r == distribution_spec(total_supply, state.demurrage_amount),
{
    distribution_at(total_supply, state.demurrage_amount)
}

/// What the sink account is owed at the factor `demurrage_amount`.
pub fn distribution_at(total_supply: u128, demurrage_amount: u128) -> (r: Result<
    u128,
    ContractError,
>)
    ensures
        r == distribution_spec(total_supply, demurrage_amount),
{
    let held: u128 = match demurrage_amount.checked_mul(DEMURRAGE_SCALE) {
        Some(h) => h,
        None => {
            return Ok(0);
        },
    };
    if held >= RESOLUTION_FACTOR {
        return Ok(0);
    }
    match total_supply.checked_mul(RESOLUTION_FACTOR - held) {
        Some(p) => Ok(p / RESOLUTION_FACTOR),
        None => Err(ContractError::ArithmeticOverflow),
    }
}

/// Brings the schedule up to `now`. Where at least one whole minute has passed
/// since the last decay, the factor decays by those minutes; where `now` is
/// then a whole minute or more past the start of the current period, the
/// factor grows by those minutes, the period advances by one, however many
/// have elapsed, and the result is what the sink account is to be credited
/// with. Otherwise the result is `None`. On an error the schedule stays as it
/// was.
pub fn advance(state: &mut State, now: Timestamp, total_supply: u128) -> (r: Result<
    Option<u128>,
    ContractError,
>)
    ensures
        match advance_spec(*old(state), now, total_supply) {
            Ok((next, owed)) => r == Ok::<Option<u128>, ContractError>(owed) && *final(state)
                == next,
            Err(e) => r == Err::<Option<u128>, ContractError>(e)
                && *final(state) == *old(state),
        },
        old(state).wf() ==> final(state).wf(),
{
    let elapsed: u64 = match get_minutes_delta(now, state.demurrage_timestamp) {
        Ok(n) => n,
        Err(e) => {
            return Err(e);
        },
    };
    if elapsed == 0 {
        return Ok(None);
    }
    let decayed: u128 = match decay_by(state.demurrage_amount, state.tax_level, elapsed) {
        Ok(a) => a,
        Err(e) => {
            return Err(e);
        },
    };
    if decayed == 0 {
        return Err(ContractError::DecayFactorNonPositive);
    }
    proof {
        lemma_elapsed_bounds(now, state.demurrage_timestamp, MINUTE);
    }
    let decay_time: Timestamp = state.demurrage_timestamp.plus_seconds(elapsed * MINUTE);
    let boundary: Timestamp = match get_period_time_delta(
        state.start_timestamp,
        state.current_period,
        state.period_minute,
    ) {
        Ok(b) => b,
        Err(e) => {
            return Err(e);
        },
    };
    let periods: u64 = match demurrage_cycles(now, boundary) {
        Ok(n) => n,
        Err(_) => 0,
    };
    if periods == 0 {
        state.demurrage_amount = decayed;
        state.demurrage_timestamp = decay_time;
        return Ok(None);
    }
    let grown: u128 = match grow_by(decayed, state.tax_level, periods) {
        Ok(a) => a,
        Err(e) => {
            return Err(e);
        },
    };
    if grown == 0 {
        return Err(ContractError::DecayFactorNonPositive);
    }
    if state.current_period == u64::MAX {
        return Err(ContractError::ArithmeticOverflow);
    }
    let distribution: u128 = match distribution_at(total_supply, grown) {
        Ok(d) => d,
        Err(e) => {
            return Err(e);
        },
    };
    state.demurrage_amount = grown;
    state.demurrage_timestamp = decay_time;
    state.current_period = state.current_period + 1;
    Ok(Some(distribution))
}

/// Converts a nominal amount through the schedule's factor, as every amount
/// that is credited must be once the schedule has been brought up to date.
pub fn convert_for_operation(nominal_amount: u128, state: &State) -> (r: Result<
    u128,
    ContractError,
>)
    ensures
        r == to_base_amount_spec(nominal_amount, state.demurrage_amount),
{
    to_base_amount(nominal_amount, state.demurrage_amount)
}

/// The number of the period in which `now_timestamp` lies, counting from one:
/// the whole minutes since the start, divided by the period's length, plus one.
/// A `now_timestamp` before the start is a `NonMonotonicTime`.
pub fn actual_period(now_timestamp: Timestamp, state: &State) -> (r: Result<u128, ContractError>)
    requires
        state.period_minute > 0,
    ensures
        now_timestamp.secs < state.start_timestamp.secs ==> r == Err::<u128, ContractError>(
            ContractError::NonMonotonicTime,
        ),
        now_timestamp.secs >= state.start_timestamp.secs ==> r == Ok::<u128, ContractError>(
            (elapsed_spec(now_timestamp, state.start_timestamp, MINUTE) / (
            state.period_minute as int) + 1) as u128,
        ),
{
    let minutes: u64 = match demurrage_cycles(now_timestamp, state.start_timestamp) {
        Ok(n) => n,
        Err(e) => {
            return Err(e);
        },
    };
    let whole: u64 = minutes / state.period_minute;
    let whole_wide: u128 = whole as u128;
    Ok(whole_wide + 1)
}

/// What `advance` keeps of a well-formed schedule, whatever the time and the
/// total supply: the start, the length of a period, the tax level and the sink
/// account stay; the time of the last decay does not go back and does not pass
/// `now`; the factor stays positive; and the period advances by exactly one
/// where the sink account is owed something, and stays where it is not.
pub proof fn lemma_advance_keeps_schedule(state: State, now: Timestamp, total_supply: u128)
    requires
        state.wf(),
        advance_spec(state, now, total_supply) is Ok,
    ensures
        ({
            let (next, owed) = advance_spec(state, now, total_supply)->Ok_0;
            &&& next.wf()
            &&& next.start_timestamp == state.start_timestamp
            &&& next.period_minute == state.period_minute
            &&& next.tax_level == state.tax_level
            &&& next.sink_address == state.sink_address
            &&& next.minimum_participant_spend == state.minimum_participant_spend
            &&& state.demurrage_timestamp.secs <= next.demurrage_timestamp.secs <= now.secs
            &&& owed is Some ==> next.current_period == state.current_period + 1
            &&& owed is None ==> next.current_period == state.current_period
        }),
{
    lemma_elapsed_bounds(now, state.demurrage_timestamp, MINUTE);
}

/// Brought up to a time once, the schedule is up to date: a second `advance`
/// at the same time, whatever the total supply is by then, changes nothing and
/// owes the sink account nothing.
pub proof fn lemma_advance_idempotent(
    state: State,
    now: Timestamp,
    total_supply: u128,
    later_supply: u128,
)
    requires
        advance_spec(state, now, total_supply) is Ok,
    ensures
        advance_spec(advance_spec(state, now, total_supply)->Ok_0.0, now, later_supply) == Ok::<
            (State, Option<u128>),
            ContractError,
        >((advance_spec(state, now, total_supply)->Ok_0.0, None)),
{
    let next = advance_spec(state, now, total_supply)->Ok_0.0;
    lemma_elapsed_bounds(now, state.demurrage_timestamp, MINUTE);
    let periods = elapsed_spec(now, state.demurrage_timestamp, MINUTE);
    if periods > 0 {
        let span = now.secs - state.demurrage_timestamp.secs;
        assert(next.demurrage_timestamp.secs == state.demurrage_timestamp.secs + periods * 60);
        assert((span - periods * 60) / 60 == 0);
    }
}

} // verus!
