//! Fixed-point compounding and the conversion of nominal amounts.
//!
//! A tax level is truncated to a whole number of steps of `NANO_DIVIDER`.
//! Compounding keeps a running multiplier at the scale
//! `GROWTH_RESOLUTION_FACTOR`, starting at one unit, and applies the truncated
//! rate to it once for each period: exactly `period` times, whether the
//! multiplier grows or decays. The value is scaled by the multiplier at the
//! end, with one truncating division.

use vstd::prelude::*;
use crate::error::ContractError;

verus! {

/// A tax level counts in steps of this size; what is below a step is cut off.
pub const NANO_DIVIDER: u128 = 10000000000000;

/// The scale of the running multiplier and of one unit of growth.
pub const GROWTH_RESOLUTION_FACTOR: u128 = 10000000;

/// The scale through which nominal amounts are converted:
/// `NANO_DIVIDER * GROWTH_RESOLUTION_FACTOR`.
pub const RESOLUTION_FACTOR: u128 = 100000000000000000000;

/// What a demurrage factor is multiplied by to reach `RESOLUTION_FACTOR`.
pub const DEMURRAGE_SCALE: u128 = 100000;

/// The demurrage factor of a ledger on which nothing has decayed yet.
pub const DEMURRAGE_UNIT: u128 = 1000000000000000;

/// The largest total supply that can be converted and redistributed without
/// leaving 128 bits: `u128::MAX / RESOLUTION_FACTOR`.
pub const MAX_SAFE_SUPPLY: u128 = 3402823669209384634;

/// Whether compounding adds to the multiplier or takes from it.
#[derive(Debug, Clone, Copy, PartialEq, Eq)]
pub enum Direction {
    Upward,
    Downward,
}

/// The rate that one period applies: the tax level in whole steps.
pub open spec fn truncated_rate(tax_level: u128) -> int {
    tax_level as int / NANO_DIVIDER as int
}

/// One period of growth of the multiplier `m` at rate `t`.
pub open spec fn grown(m: int, t: int) -> int {
    m + m * t / (GROWTH_RESOLUTION_FACTOR as int)
}

/// One period of decay of the multiplier `m` at rate `t`.
pub open spec fn decayed(m: int, t: int) -> int {
    m - m * t / (GROWTH_RESOLUTION_FACTOR as int)
}

/// The multiplier after `n` periods of growth.
pub open spec fn growth_factor(t: int, n: nat) -> int
    decreases n,
{
    if n == 0 {
        GROWTH_RESOLUTION_FACTOR as int
    } else {
        grown(growth_factor(t, (n - 1) as nat), t)
    }
}

/// The multiplier after `n` periods of decay.
pub open spec fn decay_factor(t: int, n: nat) -> int
    decreases n,
{
    if n == 0 {
        GROWTH_RESOLUTION_FACTOR as int
    } else {
        decayed(decay_factor(t, (n - 1) as nat), t)
    }
}

/// Every product and every multiplier of the first `n` periods of growth fits
/// in 128 bits.
pub open spec fn growth_fits(t: int, n: nat) -> bool
    decreases n,
{
    n == 0 || (growth_fits(t, (n - 1) as nat)
        && growth_factor(t, (n - 1) as nat) * t <= u128::MAX
        && growth_factor(t, n) <= u128::MAX)
}

/// The value scaled by a multiplier.
pub open spec fn scaled(m: int, value: u128) -> Result<u128, ContractError> {
    if m * value > u128::MAX {
        Err(ContractError::ArithmeticOverflow)
    } else {
        Ok((m * value / (GROWTH_RESOLUTION_FACTOR as int)) as u128)
    }
}

/// What `grow_by` returns.
pub open spec fn grow_by_spec(value: u128, tax_level: u128, period: u64) -> Result<
    u128,
    ContractError,
> {
    let t = truncated_rate(tax_level);
    if period == 0 {
        Ok(value)
    } else if !growth_fits(t, period as nat) {
        Err(ContractError::ArithmeticOverflow)
    } else {
        scaled(growth_factor(t, period as nat), value)
    }
}

/// What `decay_by` returns. A rate above one whole unit would take more from
/// the multiplier than it holds.
pub open spec fn decay_by_spec(value: u128, tax_level: u128, period: u64) -> Result<
    u128,
    ContractError,
> {
    let t = truncated_rate(tax_level);
    if period == 0 {
        Ok(value)
    } else if t > GROWTH_RESOLUTION_FACTOR {
        Err(ContractError::DecayFactorNonPositive)
    } else {
        scaled(decay_factor(t, period as nat), value)
    }
}

/// What `compound` returns.
pub open spec fn compound_spec(
    value: u128,
    rate: u128,
    periods: u64,
    direction: Direction,
) -> Result<u128, ContractError> {
    match direction {
        Direction::Upward => grow_by_spec(value, rate, periods),
        Direction::Downward => decay_by_spec(value, rate, periods),
    }
}

/// What `to_base_amount` returns.
pub open spec fn to_base_amount_spec(value: u128, demurrage_amount: u128) -> Result<
    u128,
    ContractError,
> {
    if demurrage_amount == 0 {
        Err(ContractError::DecayFactorNonPositive)
    } else if value * RESOLUTION_FACTOR > u128::MAX || demurrage_amount * DEMURRAGE_SCALE
        > u128::MAX {
        Err(ContractError::ArithmeticOverflow)
    } else {
        Ok(((value * RESOLUTION_FACTOR) / (demurrage_amount * DEMURRAGE_SCALE)) as u128)
    }
}

/// Growth that fits for `b` periods fits for every shorter run.
pub proof fn lemma_growth_fits_prefix(t: int, a: nat, b: nat)
    requires
        a <= b,
        growth_fits(t, b),
    ensures
        growth_fits(t, a),
    decreases b,
{
    if a < b {
        lemma_growth_fits_prefix(t, a, (b - 1) as nat);
    }
}

/// Once a period of growth adds nothing, no later period does.
pub proof fn lemma_growth_settled(t: int, i: nat, n: nat)
    requires
        i <= n,
        growth_fits(t, i),
        growth_factor(t, i) * t <= u128::MAX,
        growth_factor(t, i) <= u128::MAX,
        grown(growth_factor(t, i), t) == growth_factor(t, i),
    ensures
        growth_factor(t, n) == growth_factor(t, i),
        growth_fits(t, n),
    decreases n,
{
    if i < n {
        lemma_growth_settled(t, i, (n - 1) as nat);
    }
}

/// Once a period of decay takes nothing, no later period does.
pub proof fn lemma_decay_settled(t: int, i: nat, n: nat)
    requires
        i <= n,
        decayed(decay_factor(t, i), t) == decay_factor(t, i),
    ensures
        decay_factor(t, n) == decay_factor(t, i),
    decreases n,
{
    if i < n {
        lemma_decay_settled(t, i, (n - 1) as nat);
    }
}

/// At a rate of at most one whole unit the decaying multiplier stays between
/// zero and one unit, and never rises.
pub proof fn lemma_decay_factor_bounds(t: int, n: nat)
    requires
        0 <= t <= GROWTH_RESOLUTION_FACTOR,
    ensures
        0 <= decay_factor(t, n) <= GROWTH_RESOLUTION_FACTOR,
        n > 0 ==> decay_factor(t, n) <= decay_factor(t, (n - 1) as nat),
    decreases n,
{
    if n > 0 {
        lemma_decay_factor_bounds(t, (n - 1) as nat);
        let m = decay_factor(t, (n - 1) as nat);
        lemma_step_bounds(m, t);
    }
}

/// What one period moves, at a rate of at most one whole unit, lies between
/// zero and the multiplier itself.
pub proof fn lemma_step_bounds(m: int, t: int)
    requires
        0 <= m,
        0 <= t <= GROWTH_RESOLUTION_FACTOR,
    ensures
        0 <= m * t / (GROWTH_RESOLUTION_FACTOR as int) <= m,
{
    let f = GROWTH_RESOLUTION_FACTOR as int;
    assert(0 <= m * t <= m * f) by (nonlinear_arith)
        requires
            0 <= m,
            0 <= t <= f,
    ;
    assert(m * f / f == m) by (nonlinear_arith)
        requires
            f > 0,
    ;
    assert(m * t / f <= m * f / f) by (nonlinear_arith)
        requires
            m * t <= m * f,
            f > 0,
    ;
    assert(0 <= m * t / f) by (nonlinear_arith)
        requires
            0 <= m * t,
            f > 0,
    ;
}

/// Each period of decay takes at most the rate itself from the multiplier:
/// after `n` periods it has lost no more than `n * t`.
pub proof fn lemma_decay_factor_floor(t: int, n: nat)
    requires
        0 <= t <= GROWTH_RESOLUTION_FACTOR,
    ensures
        decay_factor(t, n) >= GROWTH_RESOLUTION_FACTOR - n * t,
    decreases n,
{
    if n > 0 {
        let f = GROWTH_RESOLUTION_FACTOR as int;
        let m = decay_factor(t, (n - 1) as nat);
        lemma_decay_factor_floor(t, (n - 1) as nat);
        lemma_decay_factor_bounds(t, (n - 1) as nat);
        assert(m * t / f <= t) by (nonlinear_arith)
            requires
                0 <= m <= f,
                0 <= t,
                f > 0,
        ;
        assert(f - (n - 1) * t - t == f - n * t) by (nonlinear_arith);
    }
}

/// The growing multiplier never falls below one unit.
pub proof fn lemma_growth_factor_floor(t: int, n: nat)
    requires
        0 <= t,
    ensures
        growth_factor(t, n) >= GROWTH_RESOLUTION_FACTOR,
    decreases n,
{
    if n > 0 {
        let f = GROWTH_RESOLUTION_FACTOR as int;
        let m = growth_factor(t, (n - 1) as nat);
        lemma_growth_factor_floor(t, (n - 1) as nat);
        assert(m * t / f >= 0) by (nonlinear_arith)
            requires
                0 <= m,
                0 <= t,
                f > 0,
        ;
    }
}

/// Decay followed by growth over the same periods at the same tax level brings
/// a value back to within a bound. Decay does not raise the value, and growth
/// does not lower what decay left. What comes back is the value times both
/// multipliers, short of it by what the two divisions cut off: by less than the
/// growth multiplier in units, plus one. And what is missing against the value
/// itself is less than the simple tax of all the periods,
/// `periods * rate * value / GROWTH_RESOLUTION_FACTOR`, plus one.
pub proof fn lemma_decay_then_growth(value: u128, tax_level: u128, periods: u64)
    requires
        decay_by_spec(value, tax_level, periods) is Ok,
        grow_by_spec(decay_by_spec(value, tax_level, periods)->Ok_0, tax_level, periods) is Ok,
    ensures
        decay_by_spec(value, tax_level, periods)->Ok_0 <= value,
        grow_by_spec(decay_by_spec(value, tax_level, periods)->Ok_0, tax_level, periods)->Ok_0
            >= decay_by_spec(value, tax_level, periods)->Ok_0,
        grow_by_spec(decay_by_spec(value, tax_level, periods)->Ok_0, tax_level, periods)->Ok_0
            * GROWTH_RESOLUTION_FACTOR * GROWTH_RESOLUTION_FACTOR <= growth_factor(
            truncated_rate(tax_level),
            periods as nat,
        ) * decay_factor(truncated_rate(tax_level), periods as nat) * value,
        grow_by_spec(decay_by_spec(value, tax_level, periods)->Ok_0, tax_level, periods)->Ok_0
            * GROWTH_RESOLUTION_FACTOR * GROWTH_RESOLUTION_FACTOR > growth_factor(
            truncated_rate(tax_level),
            periods as nat,
        ) * decay_factor(truncated_rate(tax_level), periods as nat) * value - (growth_factor(
            truncated_rate(tax_level),
            periods as nat,
        ) + GROWTH_RESOLUTION_FACTOR) * GROWTH_RESOLUTION_FACTOR,
        (value - grow_by_spec(
            decay_by_spec(value, tax_level, periods)->Ok_0,
            tax_level,
            periods,
        )->Ok_0) * GROWTH_RESOLUTION_FACTOR < periods * truncated_rate(tax_level) * value
            + GROWTH_RESOLUTION_FACTOR,
{
    let f = GROWTH_RESOLUTION_FACTOR as int;
    let t = truncated_rate(tax_level);
    let n = periods as nat;
    let v = value as int;
    let d = decay_by_spec(value, tax_level, periods)->Ok_0 as int;
    let g = grow_by_spec(d as u128, tax_level, periods)->Ok_0 as int;
    assert(0 <= t) by (nonlinear_arith)
        requires
            t == tax_level as int / NANO_DIVIDER as int,
            tax_level >= 0,
            NANO_DIVIDER == 10000000000000,
    ;
    if periods > 0 {
        let dn = decay_factor(t, n);
        let un = growth_factor(t, n);
        lemma_decay_factor_bounds(t, n);
        lemma_decay_factor_floor(t, n);
        lemma_growth_factor_floor(t, n);
        assert(d == dn * v / f);
        assert(g == un * d / f);
        assert(dn * v / f <= v) by (nonlinear_arith)
            requires
                0 <= dn <= f,
                0 <= v,
                f > 0,
        ;
        assert(un * d / f >= d) by (nonlinear_arith)
            requires
                un >= f,
                0 <= d,
                f > 0,
        ;
        assert((dn * v / f) * f > dn * v - f) by (nonlinear_arith)
            requires
                f > 0,
        ;
        assert(dn * v >= (f - n * t) * v) by (nonlinear_arith)
            requires
                dn >= f - n * t,
                0 <= v,
        ;
        assert((v - d) * f < n * t * v + f) by (nonlinear_arith)
            requires
                d * f > dn * v - f,
                dn * v >= (f - n * t) * v,
        ;
        assert((v - g) * f <= (v - d) * f) by (nonlinear_arith)
            requires
                g >= d,
                f > 0,
        ;
        assert(d * f <= dn * v) by (nonlinear_arith)
            requires
                d == dn * v / f,
                f > 0,
        ;
        assert(g * f <= un * d && g * f > un * d - f) by (nonlinear_arith)
            requires
                g == un * d / f,
                f > 0,
        ;
        assert(g * f * f <= un * dn * v) by (nonlinear_arith)
            requires
                g * f <= un * d,
                d * f <= dn * v,
                un >= 0,
                f > 0,
        ;
        assert(g * f * f > un * dn * v - (un + f) * f) by (nonlinear_arith)
            requires
                g * f > un * d - f,
                d * f > dn * v - f,
                un > 0,
                f > 0,
        ;
    } else {
        assert(periods * t * v == 0) by (nonlinear_arith)
            requires
                periods == 0,
        ;
        assert(v * f * f == f * f * v && (f + f) * f > 0) by (nonlinear_arith)
            requires
                f > 0,
        ;
    }
}

/// Over a single period, decay followed by growth at the same tax level never
/// gives back more than the value, and what is missing is less than the tax
/// on the tax, `value * rate * rate / GROWTH_RESOLUTION_FACTOR^2`, plus three.
pub proof fn lemma_one_period_round_trip(value: u128, tax_level: u128)
    requires
        decay_by_spec(value, tax_level, 1) is Ok,
        grow_by_spec(decay_by_spec(value, tax_level, 1)->Ok_0, tax_level, 1) is Ok,
    ensures
        grow_by_spec(decay_by_spec(value, tax_level, 1)->Ok_0, tax_level, 1)->Ok_0 <= value,
        (value - grow_by_spec(decay_by_spec(value, tax_level, 1)->Ok_0, tax_level, 1)->Ok_0)
            * GROWTH_RESOLUTION_FACTOR * GROWTH_RESOLUTION_FACTOR < truncated_rate(tax_level)
            * truncated_rate(tax_level) * value + 3 * GROWTH_RESOLUTION_FACTOR
            * GROWTH_RESOLUTION_FACTOR,
{
    let f = GROWTH_RESOLUTION_FACTOR as int;
    let t = truncated_rate(tax_level);
    let v = value as int;
    let d = decay_by_spec(value, tax_level, 1)->Ok_0 as int;
    let g = grow_by_spec(d as u128, tax_level, 1)->Ok_0 as int;
    assert(0 <= t) by (nonlinear_arith)
        requires
            t == tax_level as int / NANO_DIVIDER as int,
            tax_level >= 0,
            NANO_DIVIDER == 10000000000000,
    ;
    assert(f * t / f == t) by (nonlinear_arith)
        requires
            f > 0,
    ;
    reveal_with_fuel(decay_factor, 2);
    reveal_with_fuel(growth_factor, 2);
    assert(decay_factor(t, 1) == f - t);
    assert(growth_factor(t, 1) == f + t);
    assert(d == (f - t) * v / f);
    assert(g == (f + t) * d / f);
    assert(d * f <= (f - t) * v && d * f > (f - t) * v - f) by (nonlinear_arith)
        requires
            d == (f - t) * v / f,
            f > 0,
    ;
    assert(g * f <= (f + t) * d && g * f > (f + t) * d - f) by (nonlinear_arith)
        requires
            g == (f + t) * d / f,
            f > 0,
    ;
    assert(g * f * f <= (f + t) * (d * f)) by (nonlinear_arith)
        requires
            g * f <= (f + t) * d,
            f > 0,
    ;
    assert((f + t) * (d * f) <= (f + t) * ((f - t) * v)) by (nonlinear_arith)
        requires
            d * f <= (f - t) * v,
            f + t >= 0,
    ;
    assert((f + t) * ((f - t) * v) == f * f * v - t * t * v) by (nonlinear_arith);
    assert(t * t * v >= 0) by (nonlinear_arith)
        requires
            v >= 0,
    ;
    assert(g <= v) by (nonlinear_arith)
        requires
            g * f * f <= f * f * v,
            f > 0,
    ;
    assert(g * f * f > (f + t) * (d * f) - f * f) by (nonlinear_arith)
        requires
            g * f > (f + t) * d - f,
            f > 0,
    ;
    assert((f + t) * (d * f) >= (f + t) * ((f - t) * v) - (f + t) * f) by (nonlinear_arith)
        requires
            d * f > (f - t) * v - f,
            f + t >= 0,
    ;
    assert((f + t) * f <= 2 * f * f) by (nonlinear_arith)
        requires
            0 <= t <= f,
    ;
    assert((v - g) * f * f == v * f * f - g * f * f) by (nonlinear_arith);
    assert(v * f * f == f * f * v) by (nonlinear_arith);
}

/// At a factor of one whole unit the conversion changes nothing: every amount
/// up to `MAX_SAFE_SUPPLY` is handed back as it is, and every larger one is an
/// `ArithmeticOverflow`.
pub proof fn lemma_base_amount_at_unit(value: u128)
    ensures
        value <= MAX_SAFE_SUPPLY ==> to_base_amount_spec(value, DEMURRAGE_UNIT) == Ok::<
            u128,
            ContractError,
        >(value),
        value > MAX_SAFE_SUPPLY ==> to_base_amount_spec(value, DEMURRAGE_UNIT) == Err::<
            u128,
            ContractError,
        >(ContractError::ArithmeticOverflow),
{
    let scale = RESOLUTION_FACTOR as int;
    let v = value as int;
    assert(DEMURRAGE_UNIT * DEMURRAGE_SCALE == scale) by (nonlinear_arith)
        requires
            DEMURRAGE_UNIT == 1000000000000000,
            DEMURRAGE_SCALE == 100000,
            scale == 100000000000000000000,
    ;
    assert(v * scale / scale == v) by (nonlinear_arith)
        requires
            scale > 0,
    ;
    if value <= MAX_SAFE_SUPPLY {
        assert(v * scale <= u128::MAX) by (nonlinear_arith)
            requires
                0 <= v <= 3402823669209384634,
                scale == 100000000000000000000,
        ;
    } else {
        assert(v * scale > u128::MAX) by (nonlinear_arith)
            requires
                v >= 3402823669209384635,
                scale == 100000000000000000000,
        ;
    }
}

/// Compounds `value` upward: the multiplier grows by the truncated tax level
/// once for each of `period` periods, and the value is scaled by it. No period
/// leaves the value as it is. A product or a multiplier that does not fit in
/// 128 bits is an `ArithmeticOverflow`.
pub fn grow_by(value: u128, tax_level: u128, period: u64) -> (r: Result<u128, ContractError>)
    ensures
        r == grow_by_spec(value, tax_level, period),
        period == 0 ==> r == Ok::<u128, ContractError>(value),
{
    if period == 0 {
        return Ok(value);
    }
    let t: u128 = tax_level / NANO_DIVIDER;
    let mut m: u128 = GROWTH_RESOLUTION_FACTOR;
    let mut i: u64 = 0;
    while i < period
        invariant
            i <= period,
            t == truncated_rate(tax_level),
            growth_fits(t as int, i as nat),
            m == growth_factor(t as int, i as nat),
        decreases period - i,
    {
        let product: u128 = match m.checked_mul(t) {
            Some(p) => p,
            None => {
                proof {
                    if growth_fits(t as int, period as nat) {
                        lemma_growth_fits_prefix(t as int, (i + 1) as nat, period as nat);
                    }
                }
                return Err(ContractError::ArithmeticOverflow);
            },
        };
        let delta: u128 = product / GROWTH_RESOLUTION_FACTOR;
        if delta == 0 {
            // A period that adds nothing leaves the later ones nothing to add.
            proof {
                lemma_growth_settled(t as int, i as nat, period as nat);
            }
            i = period;
        } else {
            m = match m.checked_add(delta) {
                Some(s) => s,
                None => {
                    proof {
                        if growth_fits(t as int, period as nat) {
                            lemma_growth_fits_prefix(t as int, (i + 1) as nat, period as nat);
                        }
                    }
                    return Err(ContractError::ArithmeticOverflow);
                },
            };
            i = i + 1;
        }
    }
    match m.checked_mul(value) {
        Some(p) => Ok(p / GROWTH_RESOLUTION_FACTOR),
        None => Err(ContractError::ArithmeticOverflow),
    }
}

/// Compounds `value` downward: the multiplier decays by the truncated tax level
/// once for each of `period` periods, and the value is scaled by it. No period
/// leaves the value as it is. A tax level above one whole unit is a
/// `DecayFactorNonPositive`; a scaled value that does not fit in 128 bits is an
/// `ArithmeticOverflow`.
pub fn decay_by(value: u128, tax_level: u128, period: u64) -> (r: Result<u128, ContractError>)
    ensures
        r == decay_by_spec(value, tax_level, period),
        period == 0 ==> r == Ok::<u128, ContractError>(value),
{
    if period == 0 {
        return Ok(value);
    }
    let t: u128 = tax_level / NANO_DIVIDER;
    if t > GROWTH_RESOLUTION_FACTOR {
        return Err(ContractError::DecayFactorNonPositive);
    }
    let mut m: u128 = GROWTH_RESOLUTION_FACTOR;
    let mut i: u64 = 0;
    while i < period
        invariant
            i <= period,
            t == truncated_rate(tax_level),
            t <= GROWTH_RESOLUTION_FACTOR,
            m <= GROWTH_RESOLUTION_FACTOR,
            m == decay_factor(t as int, i as nat),
        decreases period - i,
    {
        proof {
            lemma_step_bounds(m as int, t as int);
            assert(m * t <= GROWTH_RESOLUTION_FACTOR * GROWTH_RESOLUTION_FACTOR)
                by (nonlinear_arith)
                requires
                    m <= GROWTH_RESOLUTION_FACTOR,
                    t <= GROWTH_RESOLUTION_FACTOR,
            ;
        }
        let delta: u128 = m * t / GROWTH_RESOLUTION_FACTOR;
        if delta == 0 {
            // A period that takes nothing leaves the later ones nothing to take.
            proof {
                lemma_decay_settled(t as int, i as nat, period as nat);
            }
            i = period;
        } else {
            m = m - delta;
            i = i + 1;
        }
    }
    match m.checked_mul(value) {
        Some(p) => Ok(p / GROWTH_RESOLUTION_FACTOR),
        None => Err(ContractError::ArithmeticOverflow),
    }
}

/// Applies `rate` to `value` once for each of `periods` periods, upward or
/// downward.
pub fn compound(value: u128, rate: u128, periods: u64, direction: Direction) -> (r: Result<
    u128,
    ContractError,
>)
    ensures
        r == compound_spec(value, rate, periods, direction),
        periods == 0 ==> r == Ok::<u128, ContractError>(value),
{
    match direction {
        Direction::Upward => grow_by(value, rate, periods),
        Direction::Downward => decay_by(value, rate, periods),
    }
}

/// Converts a nominal amount through the demurrage factor:
/// `value * RESOLUTION_FACTOR / (demurrage_amount * DEMURRAGE_SCALE)`, cut to a
/// whole number. A factor of zero is a `DecayFactorNonPositive`; a product that
/// does not fit in 128 bits is an `ArithmeticOverflow`.
pub fn to_base_amount(value: u128, demurrage_amount: u128) -> (r: Result<u128, ContractError>)
    ensures
        r == to_base_amount_spec(value, demurrage_amount),
{
    if demurrage_amount == 0 {
        return Err(ContractError::DecayFactorNonPositive);
    }
    let numerator: u128 = match value.checked_mul(RESOLUTION_FACTOR) {
        Some(p) => p,
        None => {
            return Err(ContractError::ArithmeticOverflow);
        },
    };
    let denominator: u128 = match demurrage_amount.checked_mul(DEMURRAGE_SCALE) {
        Some(p) => p,
        None => {
            return Err(ContractError::ArithmeticOverflow);
        },
    };
    assert(denominator > 0) by (nonlinear_arith)
        requires
            denominator == demurrage_amount * DEMURRAGE_SCALE,
            demurrage_amount > 0,
            DEMURRAGE_SCALE == 100000,
    ;
    Ok(numerator / denominator)
}

} // verus!
