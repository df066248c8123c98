use cw20_demurrage::clock::{
    demurrage_cycles, elapsed_periods, get_minutes_delta, get_period_time_delta, Timestamp,
};
use cw20_demurrage::error::ContractError;
use cw20_demurrage::math::{
    compound, decay_by, grow_by, to_base_amount, Direction, DEMURRAGE_SCALE, DEMURRAGE_UNIT,
    GROWTH_RESOLUTION_FACTOR, MAX_SAFE_SUPPLY, NANO_DIVIDER, RESOLUTION_FACTOR,
};
use cw20_demurrage::state::checked_pow10;

const TAX: u128 = 50105908373373;
const FIVE_PERCENT: u128 = 5_000_000_000_000_000_000;

#[test]
fn scales_fit_together() {
    assert_eq!(NANO_DIVIDER * GROWTH_RESOLUTION_FACTOR, RESOLUTION_FACTOR);
    assert_eq!(DEMURRAGE_UNIT * DEMURRAGE_SCALE, RESOLUTION_FACTOR);
    assert_eq!(u128::MAX / RESOLUTION_FACTOR, MAX_SAFE_SUPPLY);
}

#[test]
fn no_period_leaves_the_value() {
    assert_eq!(compound(12345, TAX, 0, Direction::Upward), Ok(12345));
    assert_eq!(compound(12345, TAX, 0, Direction::Downward), Ok(12345));
    assert_eq!(compound(u128::MAX, u128::MAX, 0, Direction::Upward), Ok(u128::MAX));
    assert_eq!(compound(u128::MAX, u128::MAX, 0, Direction::Downward), Ok(u128::MAX));
    assert_eq!(grow_by(0, FIVE_PERCENT, 0), Ok(0));
    assert_eq!(decay_by(7, FIVE_PERCENT, 0), Ok(7));
}

#[test]
fn one_period_is_one_application_of_the_rate() {
    assert_eq!(decay_by(DEMURRAGE_UNIT, TAX, 1), Ok(999_999_500_000_000));
    assert_eq!(grow_by(DEMURRAGE_UNIT, TAX, 1), Ok(1_000_000_500_000_000));
    assert_eq!(grow_by(999_999_500_000_000, TAX, 1), Ok(999_999_999_999_750));
    assert_eq!(decay_by(1_000_000, FIVE_PERCENT, 1), Ok(950_000));
    assert_eq!(grow_by(1_000_000, FIVE_PERCENT, 1), Ok(1_050_000));
}

#[test]
fn periods_compound_with_truncation_at_every_step() {
    assert_eq!(decay_by(1_000_000, FIVE_PERCENT, 2), Ok(902_500));
    assert_eq!(grow_by(1_000_000, FIVE_PERCENT, 2), Ok(1_102_500));
    assert_eq!(decay_by(DEMURRAGE_UNIT, FIVE_PERCENT, 3), Ok(857_375_000_000_000));
    assert_eq!(decay_by(DEMURRAGE_UNIT, FIVE_PERCENT, 10), Ok(598_737_200_000_000));
    assert_eq!(grow_by(DEMURRAGE_UNIT, FIVE_PERCENT, 10), Ok(1_628_894_200_000_000));
    assert_eq!(decay_by(DEMURRAGE_UNIT, TAX, 5), Ok(999_997_900_000_000));
    assert_eq!(grow_by(999_997_900_000_000, TAX, 5), Ok(1_000_000_399_994_750));
    assert_eq!(grow_by(100, 100_000_000_000_000_000_000, 3), Ok(800));
    assert_eq!(
        compound(1_000_000_000, TAX, 3, Direction::Downward),
        decay_by(1_000_000_000, TAX, 3)
    );
    assert_eq!(compound(1_000_000_000, TAX, 3, Direction::Downward), Ok(999_998_700));
    assert_eq!(compound(1_000_000_000, TAX, 3, Direction::Upward), Ok(1_000_001_500));
}

#[test]
fn a_tax_below_one_step_changes_nothing() {
    assert_eq!(decay_by(1_000_000, NANO_DIVIDER - 1, 1000), Ok(1_000_000));
    assert_eq!(grow_by(1_000_000, NANO_DIVIDER - 1, u64::MAX), Ok(1_000_000));
}

#[test]
fn decay_settles_however_many_periods_pass() {
    assert_eq!(decay_by(DEMURRAGE_UNIT, TAX, u64::MAX), Ok(199_999_900_000_000));
    assert_eq!(decay_by(DEMURRAGE_UNIT, 100_000_000_000_000_000_000, u64::MAX), Ok(0));
}

#[test]
fn decay_then_growth_stays_within_the_simple_tax() {
    let value: u128 = 1_000_000_000;
    let decayed = decay_by(value, FIVE_PERCENT, 10).unwrap();
    let restored = grow_by(decayed, FIVE_PERCENT, 10).unwrap();
    assert_eq!(decayed, 598_737_200);
    assert_eq!(restored, 975_279_552);
    assert!(decayed <= value);
    assert!(restored >= decayed);
    let rate = FIVE_PERCENT / NANO_DIVIDER;
    assert!(
        (value - restored) * GROWTH_RESOLUTION_FACTOR
            < 10 * rate * value + GROWTH_RESOLUTION_FACTOR
    );
    let up = grow_by(GROWTH_RESOLUTION_FACTOR, FIVE_PERCENT, 10).unwrap();
    let down = decay_by(GROWTH_RESOLUTION_FACTOR, FIVE_PERCENT, 10).unwrap();
    assert_eq!(up, 16_288_942);
    assert_eq!(down, 5_987_372);
    let square = GROWTH_RESOLUTION_FACTOR * GROWTH_RESOLUTION_FACTOR;
    assert!(restored * square <= up * down * value);
    assert!(restored * square + (up + GROWTH_RESOLUTION_FACTOR) * GROWTH_RESOLUTION_FACTOR
        > up * down * value);
}

#[test]
fn growth_that_does_not_fit_is_an_overflow() {
    assert_eq!(grow_by(u128::MAX, TAX, 1), Err(ContractError::ArithmeticOverflow));
    assert_eq!(grow_by(1, u128::MAX, 2), Err(ContractError::ArithmeticOverflow));
    assert_eq!(decay_by(u128::MAX, TAX, 1), Err(ContractError::ArithmeticOverflow));
    assert_eq!(
        compound(u128::MAX / 2, FIVE_PERCENT, 4, Direction::Upward),
        Err(ContractError::ArithmeticOverflow)
    );
}

#[test]
fn a_tax_above_one_unit_cannot_decay() {
    let above = 100_000_010_000_000_000_000;
    assert_eq!(decay_by(1000, above, 1), Err(ContractError::DecayFactorNonPositive));
    assert_eq!(
        compound(1000, above, 5, Direction::Downward),
        Err(ContractError::DecayFactorNonPositive)
    );
    assert_eq!(decay_by(1000, above, 0), Ok(1000));
}

#[test]
fn conversion_is_the_identity_at_one_unit() {
    assert_eq!(to_base_amount(76543, DEMURRAGE_UNIT), Ok(76543));
    assert_eq!(to_base_amount(0, DEMURRAGE_UNIT), Ok(0));
    assert_eq!(to_base_amount(1, DEMURRAGE_UNIT), Ok(1));
    assert_eq!(to_base_amount(MAX_SAFE_SUPPLY, DEMURRAGE_UNIT), Ok(MAX_SAFE_SUPPLY));
}

#[test]
fn conversion_goes_through_the_factor() {
    assert_eq!(to_base_amount(1000, DEMURRAGE_UNIT / 2), Ok(2000));
    assert_eq!(to_base_amount(1000, 2 * DEMURRAGE_UNIT), Ok(500));
    assert_eq!(to_base_amount(1000, 997_500_000_000_000), Ok(1002));
    assert_eq!(to_base_amount(76543, 1_000_000_399_994_750), Ok(76542));
}

#[test]
fn conversion_rejects_what_does_not_fit() {
    assert_eq!(to_base_amount(1000, 0), Err(ContractError::DecayFactorNonPositive));
    assert_eq!(
        to_base_amount(MAX_SAFE_SUPPLY + 1, DEMURRAGE_UNIT),
        Err(ContractError::ArithmeticOverflow)
    );
    assert_eq!(to_base_amount(1, u128::MAX), Err(ContractError::ArithmeticOverflow));
}

#[test]
fn no_period_has_elapsed_at_the_reference() {
    let now = Timestamp::from_seconds(1_571_797_419);
    assert_eq!(elapsed_periods(now, now, 60), Ok(0));
    assert_eq!(elapsed_periods(now, now, 1), Ok(0));
    assert_eq!(demurrage_cycles(now, now), Ok(0));
}

#[test]
fn elapsed_periods_are_whole_and_never_fall() {
    let reference = Timestamp::from_seconds(1000);
    assert_eq!(elapsed_periods(Timestamp::from_seconds(1059), reference, 60), Ok(0));
    assert_eq!(elapsed_periods(Timestamp::from_seconds(1060), reference, 60), Ok(1));
    assert_eq!(elapsed_periods(Timestamp::from_seconds(1119), reference, 60), Ok(1));
    assert_eq!(elapsed_periods(Timestamp::from_seconds(1120), reference, 60), Ok(2));
    assert_eq!(elapsed_periods(Timestamp::from_seconds(4600), reference, 3600), Ok(1));
    assert_eq!(demurrage_cycles(Timestamp::from_seconds(1300), reference), Ok(5));
    assert_eq!(get_minutes_delta(Timestamp::from_seconds(1300), reference), Ok(5));
    assert_eq!(get_minutes_delta(Timestamp::from_seconds(1299), reference), Ok(4));
    let mut last = 0;
    let mut now = 1000;
    while now < 1400 {
        let periods = elapsed_periods(Timestamp::from_seconds(now), reference, 60).unwrap();
        assert!(periods >= last);
        last = periods;
        now += 7;
    }
    assert_eq!(
        elapsed_periods(Timestamp::from_seconds(u64::MAX), Timestamp::from_seconds(0), 1),
        Ok(u64::MAX)
    );
}

#[test]
fn a_time_before_the_reference_is_rejected() {
    let reference = Timestamp::from_seconds(1000);
    assert_eq!(
        elapsed_periods(Timestamp::from_seconds(999), reference, 60),
        Err(ContractError::NonMonotonicTime)
    );
    assert_eq!(
        demurrage_cycles(Timestamp::from_seconds(0), reference),
        Err(ContractError::NonMonotonicTime)
    );
    assert_eq!(
        get_minutes_delta(Timestamp::from_seconds(999), reference),
        Err(ContractError::NonMonotonicTime)
    );
}

#[test]
fn a_period_starts_at_its_multiple_of_the_length() {
    let start = Timestamp::from_seconds(1_571_797_419);
    assert_eq!(get_period_time_delta(start, 0, 60), Ok(start));
    assert_eq!(get_period_time_delta(start, 1, 60), Ok(Timestamp::from_seconds(1_571_797_479)));
    assert_eq!(get_period_time_delta(start, 3, 3600), Ok(Timestamp::from_seconds(1_571_808_219)));
    assert_eq!(
        get_period_time_delta(start, u64::MAX, 2),
        Err(ContractError::ArithmeticOverflow)
    );
    assert_eq!(
        get_period_time_delta(Timestamp::from_seconds(u64::MAX), 1, 1),
        Err(ContractError::ArithmeticOverflow)
    );
}

#[test]
fn timestamps_count_seconds() {
    let t = Timestamp::from_seconds(100);
    assert_eq!(t.seconds(), 100);
    assert_eq!(t.plus_seconds(60).seconds(), 160);
    assert_eq!(t.plus_seconds(0), t);
}

#[test]
fn powers_of_ten_up_to_nine_decimals() {
    assert_eq!(checked_pow10(0), Some(1));
    assert_eq!(checked_pow10(3), Some(1000));
    assert_eq!(checked_pow10(9), Some(1_000_000_000));
    assert_eq!(checked_pow10(10), None);
}

#[test]
fn one_period_there_and_back_loses_the_tax_on_the_tax() {
    let rate = FIVE_PERCENT / NANO_DIVIDER;
    let mut value: u128 = 1;
    while value < 1_000_000_000_000 {
        let decayed = decay_by(value, FIVE_PERCENT, 1).unwrap();
        let restored = grow_by(decayed, FIVE_PERCENT, 1).unwrap();
        assert!(restored <= value);
        assert!(
            (value - restored) * GROWTH_RESOLUTION_FACTOR * GROWTH_RESOLUTION_FACTOR
                < rate * rate * value + 3 * GROWTH_RESOLUTION_FACTOR * GROWTH_RESOLUTION_FACTOR
        );
        value = value * 7 + 3;
    }
    assert_eq!(grow_by(decay_by(1_000_000, FIVE_PERCENT, 1).unwrap(), FIVE_PERCENT, 1), Ok(997_500));
}

#[test]
fn growth_after_decay_can_exceed_the_value() {
    let one_step = NANO_DIVIDER;
    let decayed = decay_by(10_000_000, one_step, 100).unwrap();
    let restored = grow_by(decayed, one_step, 100).unwrap();
    assert_eq!(decayed, 9_999_999);
    assert_eq!(restored, 10_000_098);
    assert!(restored > 10_000_000);
}
