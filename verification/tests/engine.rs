use cw20_demurrage::clock::Timestamp;
use cw20_demurrage::engine::{
    actual_period, advance, apply_demurrage, apply_demurrage_limited, convert_for_operation,
    distribution_at, get_distribution,
};
use cw20_demurrage::error::ContractError;
use cw20_demurrage::math::DEMURRAGE_UNIT;
use cw20_demurrage::state::{MinterData, State, TokenInfo};

const T0: u64 = 1_571_797_419;
const FIVE_PERCENT: u128 = 5_000_000_000_000_000_000;

fn genesis(tax_level: u128) -> State {
    State::genesis(
        Timestamp::from_seconds(T0),
        1,
        DEMURRAGE_UNIT,
        tax_level,
        "sinkaddress".to_string(),
        6,
    )
    .unwrap()
}

#[test]
fn genesis_starts_at_one_unit() {
    let state = genesis(FIVE_PERCENT);
    assert_eq!(state.start_timestamp, Timestamp::from_seconds(T0));
    assert_eq!(state.demurrage_timestamp, Timestamp::from_seconds(T0));
    assert_eq!(state.period_minute, 60);
    assert_eq!(state.current_period, 0);
    assert_eq!(state.get_current_period(), 0);
    assert_eq!(state.demurrage_amount, DEMURRAGE_UNIT);
    assert_eq!(state.current_decay_factor(), DEMURRAGE_UNIT);
    assert_eq!(state.current_tax_rate(), FIVE_PERCENT);
    assert_eq!(state.current_sink_address(), "sinkaddress");
    assert_eq!(state.minimum_participant_spend, 1_000_000);
}

#[test]
fn genesis_rejects_what_does_not_fit() {
    let start = Timestamp::from_seconds(T0);
    assert_eq!(
        State::genesis(start, 1, 0, FIVE_PERCENT, "sink".to_string(), 6),
        Err(ContractError::DecayFactorNonPositive)
    );
    assert_eq!(
        State::genesis(start, u64::MAX, DEMURRAGE_UNIT, FIVE_PERCENT, "sink".to_string(), 6),
        Err(ContractError::ArithmeticOverflow)
    );
    assert_eq!(
        State::genesis(start, 1, DEMURRAGE_UNIT, FIVE_PERCENT, "sink".to_string(), 10),
        Err(ContractError::ArithmeticOverflow)
    );
}

#[test]
fn setters_change_one_field() {
    let mut state = genesis(FIVE_PERCENT);
    let before = state.clone();
    state.set_tax_rate(7);
    assert_eq!(state, State { tax_level: 7, ..before.clone() });
    state.set_sink_address("other".to_string());
    assert_eq!(state, State { tax_level: 7, sink_address: "other".to_string(), ..before });
}

#[test]
fn nothing_happens_within_the_first_minute() {
    let mut state = genesis(FIVE_PERCENT);
    let before = state.clone();
    assert_eq!(advance(&mut state, Timestamp::from_seconds(T0 + 59), 1_000_000), Ok(None));
    assert_eq!(state, before);
    assert_eq!(advance(&mut state, Timestamp::from_seconds(T0), 1_000_000), Ok(None));
    assert_eq!(state, before);
}

#[test]
fn the_first_minute_rolls_the_period_over() {
    let mut state = genesis(FIVE_PERCENT);
    assert_eq!(advance(&mut state, Timestamp::from_seconds(T0 + 59), 1_000_000), Ok(None));
    let owed = advance(&mut state, Timestamp::from_seconds(T0 + 61), 1_000_000);
    assert_eq!(owed, Ok(Some(2500)));
    assert_eq!(state.current_period, 1);
    assert_eq!(state.demurrage_amount, 997_500_000_000_000);
    assert_eq!(state.demurrage_timestamp, Timestamp::from_seconds(T0 + 60));
    assert_eq!(state.start_timestamp, Timestamp::from_seconds(T0));
    assert_eq!(state.tax_level, FIVE_PERCENT);
}

#[test]
fn advancing_twice_at_one_time_changes_nothing_more() {
    let mut state = genesis(FIVE_PERCENT);
    let now = Timestamp::from_seconds(T0 + 200);
    assert!(advance(&mut state, now, 1_000_000).unwrap().is_some());
    let after_first = state.clone();
    assert_eq!(advance(&mut state, now, 1_000_000), Ok(None));
    assert_eq!(state, after_first);
    assert_eq!(advance(&mut state, now, 5), Ok(None));
    assert_eq!(state, after_first);
}

#[test]
fn ten_minutes_one_by_one() {
    let mut state = genesis(FIVE_PERCENT);
    let expected: [(u128, u128); 10] = [
        (997_500_000_000_000, 2500),
        (995_006_250_000_000, 4993),
        (992_518_734_375_000, 7481),
        (990_037_437_539_062, 9962),
        (987_562_343_945_213, 12437),
        (985_093_438_085_349, 14906),
        (982_630_704_490_135, 17369),
        (980_174_127_728_909, 19825),
        (977_723_692_409_586, 22276),
        (975_279_383_178_561, 24720),
    ];
    let mut minute: u64 = 1;
    while minute <= 10 {
        let owed = advance(&mut state, Timestamp::from_seconds(T0 + 60 * minute), 1_000_000);
        let (factor, distribution) = expected[(minute - 1) as usize];
        assert_eq!(owed, Ok(Some(distribution)));
        assert_eq!(state.demurrage_amount, factor);
        assert!(state.demurrage_amount > 0);
        assert_eq!(state.current_period, minute);
        assert!(state.current_period <= 10);
        assert_eq!(state.demurrage_timestamp, Timestamp::from_seconds(T0 + 60 * minute));
        minute += 1;
    }
}

#[test]
fn many_minutes_at_once_advance_the_period_by_one() {
    let mut state = genesis(FIVE_PERCENT);
    let owed = advance(&mut state, Timestamp::from_seconds(T0 + 125), 1_000_000);
    assert_eq!(owed, Ok(Some(4993)));
    assert_eq!(state.current_period, 1);
    assert_eq!(state.demurrage_amount, 995_006_250_000_000);
    assert_eq!(state.demurrage_timestamp, Timestamp::from_seconds(T0 + 120));
}

#[test]
fn the_period_stays_while_its_start_lies_ahead() {
    let mut state = State::genesis(
        Timestamp::from_seconds(T0),
        60,
        DEMURRAGE_UNIT,
        FIVE_PERCENT,
        "sinkaddress".to_string(),
        6,
    )
    .unwrap();
    assert_eq!(state.period_minute, 3600);
    assert_eq!(advance(&mut state, Timestamp::from_seconds(T0 + 60), 1_000_000), Ok(Some(2500)));
    assert_eq!(state.current_period, 1);
    assert_eq!(advance(&mut state, Timestamp::from_seconds(T0 + 120), 1_000_000), Ok(None));
    assert_eq!(state.current_period, 1);
    assert_eq!(state.demurrage_amount, 947_625_000_000_000);
    assert_eq!(state.demurrage_timestamp, Timestamp::from_seconds(T0 + 120));
}

#[test]
fn a_time_before_the_last_decay_is_rejected() {
    let mut state = genesis(FIVE_PERCENT);
    advance(&mut state, Timestamp::from_seconds(T0 + 120), 1_000_000).unwrap();
    let before = state.clone();
    assert_eq!(
        advance(&mut state, Timestamp::from_seconds(T0 + 119), 1_000_000),
        Err(ContractError::NonMonotonicTime)
    );
    assert_eq!(state, before);
    assert_eq!(
        apply_demurrage(&mut state, Timestamp::from_seconds(T0)),
        Err(ContractError::NonMonotonicTime)
    );
    assert_eq!(state, before);
}

#[test]
fn an_error_leaves_the_schedule_as_it_was() {
    let mut state = genesis(FIVE_PERCENT);
    let before = state.clone();
    assert_eq!(
        advance(&mut state, Timestamp::from_seconds(T0 + 60), u128::MAX),
        Err(ContractError::ArithmeticOverflow)
    );
    assert_eq!(state, before);

    let mut steep = genesis(100_000_000_000_000_000_000);
    let before = steep.clone();
    assert_eq!(
        advance(&mut steep, Timestamp::from_seconds(T0 + 60), 1_000_000),
        Err(ContractError::DecayFactorNonPositive)
    );
    assert_eq!(steep, before);

    let mut too_steep = genesis(200_000_000_000_000_000_000);
    let before = too_steep.clone();
    assert_eq!(
        apply_demurrage(&mut too_steep, Timestamp::from_seconds(T0 + 60)),
        Err(ContractError::DecayFactorNonPositive)
    );
    assert_eq!(too_steep, before);

    let mut late = genesis(FIVE_PERCENT);
    late.current_period = u64::MAX;
    let before = late.clone();
    assert_eq!(
        advance(&mut late, Timestamp::from_seconds(T0 + 60), 1_000_000),
        Err(ContractError::ArithmeticOverflow)
    );
    assert_eq!(late, before);
}

#[test]
fn decay_is_applied_in_whole_minutes() {
    let mut state = genesis(FIVE_PERCENT);
    let before = state.clone();
    assert_eq!(apply_demurrage(&mut state, Timestamp::from_seconds(T0 + 59)), Ok(false));
    assert_eq!(state, before);
    assert_eq!(apply_demurrage(&mut state, Timestamp::from_seconds(T0 + 185)), Ok(true));
    assert_eq!(state.demurrage_amount, 857_375_000_000_000);
    assert_eq!(state.demurrage_timestamp, Timestamp::from_seconds(T0 + 180));
    assert_eq!(state.current_period, 0);
}

#[test]
fn decay_can_be_limited_to_some_rounds() {
    let mut state = genesis(FIVE_PERCENT);
    let now = Timestamp::from_seconds(T0 + 300);
    assert_eq!(apply_demurrage_limited(&mut state, now, 2), Ok(true));
    assert_eq!(state.demurrage_amount, 902_500_000_000_000);
    assert_eq!(state.demurrage_timestamp, Timestamp::from_seconds(T0 + 120));
    assert_eq!(apply_demurrage_limited(&mut state, now, 10), Ok(true));
    assert_eq!(state.demurrage_timestamp, Timestamp::from_seconds(T0 + 300));
    assert_eq!(apply_demurrage_limited(&mut state, now, 0), Ok(false));
}

#[test]
fn the_sink_is_owed_what_the_factor_has_lost() {
    let mut state = genesis(FIVE_PERCENT);
    assert_eq!(get_distribution(1_000_000, &state), Ok(0));
    state.demurrage_amount = 950_000_000_000_000;
    assert_eq!(get_distribution(1_000_000, &state), Ok(50_000));
    assert_eq!(distribution_at(1_000_000, 950_000_000_000_000), Ok(50_000));
    assert_eq!(distribution_at(1_000_000, DEMURRAGE_UNIT + 1), Ok(0));
    assert_eq!(distribution_at(1_000_000, u128::MAX), Ok(0));
    assert_eq!(distribution_at(0, 1), Ok(0));
    assert_eq!(distribution_at(u128::MAX, 1), Err(ContractError::ArithmeticOverflow));
}

#[test]
fn amounts_are_converted_through_the_current_factor() {
    let mut state = genesis(FIVE_PERCENT);
    assert_eq!(convert_for_operation(1000, &state), Ok(1000));
    advance(&mut state, Timestamp::from_seconds(T0 + 61), 1_000_000).unwrap();
    assert_eq!(convert_for_operation(1000, &state), Ok(1002));
}

#[test]
fn the_actual_period_counts_from_one() {
    let state = genesis(FIVE_PERCENT);
    assert_eq!(actual_period(Timestamp::from_seconds(T0), &state), Ok(1));
    assert_eq!(actual_period(Timestamp::from_seconds(T0 + 3599), &state), Ok(1));
    assert_eq!(actual_period(Timestamp::from_seconds(T0 + 3600), &state), Ok(2));
    assert_eq!(
        actual_period(Timestamp::from_seconds(T0 - 1), &state),
        Err(ContractError::NonMonotonicTime)
    );
}

#[test]
fn the_cap_is_the_minters() {
    let mut info = TokenInfo {
        name: "Cash Token".to_string(),
        symbol: "CASH".to_string(),
        decimals: 9,
        total_supply: 5,
        mint: None,
    };
    assert_eq!(info.get_cap(), None);
    info.mint = Some(MinterData { minter: "asmodat".to_string(), cap: None });
    assert_eq!(info.get_cap(), None);
    info.mint = Some(MinterData { minter: "asmodat".to_string(), cap: Some(77) });
    assert_eq!(info.get_cap(), Some(77));
    assert_eq!(info.duplicate(), info);
}
