//! The records that the ledger keeps: the token and its demurrage schedule.

use vstd::prelude::*;
use crate::clock::Timestamp;
use crate::error::ContractError;

verus! {

/// The token that the ledger accounts for.
#[derive(Debug, Clone, PartialEq, Eq)]
pub struct TokenInfo {
    pub name: String,
    pub symbol: String,
    pub decimals: u32,
    pub total_supply: u128,
    pub mint: Option<MinterData>,
}

/// Who may mint, and up to what total supply.
#[derive(Debug, Clone, PartialEq, Eq)]
pub struct MinterData {
    pub minter: String,
    /// The total supply that minting may not exceed.
    pub cap: Option<u128>,
}

impl TokenInfo {
    /// The minter's cap, if there is a minter and it has one.
    pub open spec fn cap(&self) -> Option<u128> {
        match self.mint {
            Some(m) => m.cap,
            None => None,
        }
    }

    /// The minter's cap, if there is a minter and it has one.
    pub fn get_cap(&self) -> (r: Option<u128>)
        ensures
            r == self.cap(),
    {
        match &self.mint {
            Some(m) => m.cap,
            None => None,
        }
    }
}

/// The demurrage schedule and how far it has run.
#[derive(Debug, Clone, PartialEq, Eq)]
pub struct State {
    /// When the schedule began.
    pub start_timestamp: Timestamp,
    /// The time up to which decay has been applied.
    pub demurrage_timestamp: Timestamp,
    /// The length of one period in seconds, a whole number of minutes.
    pub period_minute: u64,
    /// How many periods have rolled over.
    pub current_period: u64,
    /// The demurrage factor, at the scale of `DEMURRAGE_UNIT`.
    pub demurrage_amount: u128,
    /// The account that receives what has decayed.
    pub sink_address: String,
    pub minimum_participant_spend: u32,
    /// The tax of one minute, at the scale of `RESOLUTION_FACTOR`.
    pub tax_level: u128,
}

/// Ten to the power `n`.
pub open spec fn pow10(n: nat) -> nat
    decreases n,
{
    if n == 0 {
        1
    } else {
        10 * pow10((n - 1) as nat)
    }
}

/// Ten to the power `decimals`, or `None` where it does not fit in 32 bits.
pub fn checked_pow10(decimals: u32) -> (r: Option<u32>)
    ensures
        decimals <= 9 ==> r == Some(pow10(decimals as nat) as u32) && pow10(decimals as nat)
            <= u32::MAX,
        decimals > 9 ==> r.is_none(),
{
    if decimals > 9 {
        return None;
    }
    let mut power: u32 = 1;
    let mut i: u32 = 0;
    while i < decimals
        invariant
            i <= decimals <= 9,
            power == pow10(i as nat),
            power <= 1000000000,
            i < 9 ==> power <= 100000000,
            i < 8 ==> power <= 10000000,
            i < 7 ==> power <= 1000000,
            i < 6 ==> power <= 100000,
            i < 5 ==> power <= 10000,
            i < 4 ==> power <= 1000,
            i < 3 ==> power <= 100,
            i < 2 ==> power <= 10,
            i < 1 ==> power <= 1,
        decreases decimals - i,
    {
        power = power * 10;
        i = i + 1;
    }
    Some(power)
}

impl State {
    /// What holds of every schedule that the ledger keeps: decay has been
    /// applied no earlier than the start, and the factor is positive.
    pub open spec fn wf(&self) -> bool {
        &&& self.demurrage_timestamp.secs >= self.start_timestamp.secs
        &&& self.demurrage_amount > 0
    }

    /// What `genesis` makes of its arguments, where they fit.
    pub open spec fn genesis_spec(
        start: Timestamp,
        period_minutes: u64,
        demurrage_amount: u128,
        tax_level: u128,
        sink_address: String,
        decimals: u32,
    ) -> State {
        State {
            start_timestamp: start,
            demurrage_timestamp: start,
            period_minute: (period_minutes * 60) as u64,
            current_period: 0,
            demurrage_amount,
            sink_address,
            minimum_participant_spend: pow10(decimals as nat) as u32,
            tax_level,
        }
    }

    /// The schedule of a new ledger: no period has rolled over, and decay has
    /// been applied up to the start. A factor of zero is a
    /// `DecayFactorNonPositive`; a period whose seconds do not fit in 64 bits,
    /// or more than nine decimals, an `ArithmeticOverflow`.
    pub fn genesis(
        start: Timestamp,
        period_minutes: u64,
        demurrage_amount: u128,
        tax_level: u128,
        sink_address: String,
        decimals: u32,
    ) -> (r: Result<State, ContractError>)
        ensures
            demurrage_amount == 0 ==> r == Err::<State, ContractError>(
                ContractError::DecayFactorNonPositive,
            ),
            demurrage_amount > 0 && (period_minutes * 60 > u64::MAX || decimals > 9) ==> r == Err::<
                State,
                ContractError,
            >(ContractError::ArithmeticOverflow),
            demurrage_amount > 0 && period_minutes * 60 <= u64::MAX && decimals <= 9 ==> r == Ok::<
                State,
                ContractError,
            >(
                State::genesis_spec(
                    start,
                    period_minutes,
                    demurrage_amount,
                    tax_level,
                    sink_address,
                    decimals,
                ),
            ),
            r is Ok ==> r->Ok_0.wf(),
    {
        if demurrage_amount == 0 {
            return Err(ContractError::DecayFactorNonPositive);
        }
        let period_duration: u64 = match period_minutes.checked_mul(60) {
            Some(p) => p,
            None => {
                return Err(ContractError::ArithmeticOverflow);
            },
        };
        let minimum_participant_spend: u32 = match checked_pow10(decimals) {
            Some(p) => p,
            None => {
                return Err(ContractError::ArithmeticOverflow);
            },
        };
        Ok(
            State {
                start_timestamp: start,
                demurrage_timestamp: start,
                period_minute: period_duration,
                current_period: 0,
                demurrage_amount,
                sink_address,
                minimum_participant_spend,
                tax_level,
            },
        )
    }

    /// How many periods have rolled over.
    pub fn get_current_period(&self) -> (r: u64)
        ensures
            r == self.current_period,
    {
        self.current_period
    }

    /// The demurrage factor as it stands.
    pub fn current_decay_factor(&self) -> (r: u128)
        ensures
            r == self.demurrage_amount,
    {
        self.demurrage_amount
    }

    /// The tax of one minute as it stands.
    pub fn current_tax_rate(&self) -> (r: u128)
        ensures
            r == self.tax_level,
    {
        self.tax_level
    }

    /// The account that receives what has decayed.
    pub fn current_sink_address(&self) -> (r: &String)
        ensures
            r == self.sink_address,
    {
        &self.sink_address
    }

    /// Sets the tax of one minute and leaves the rest as it is.
    pub fn set_tax_rate(&mut self, value: u128)
        ensures
            *final(self) == (State { tax_level: value, ..*old(self) }),
    {
        self.tax_level = value;
    }

    /// Names another sink account and leaves the rest as it is.
    pub fn set_sink_address(&mut self, address: String)
        ensures
            *final(self) == (State { sink_address: address, ..*old(self) }),
    {
        self.sink_address = address;
    }
}

impl State {
    /// A copy of the schedule.
    pub fn duplicate(&self) -> (r: State)
        ensures
            r == *self,
    {
        State {
            start_timestamp: self.start_timestamp,
            demurrage_timestamp: self.demurrage_timestamp,
            period_minute: self.period_minute,
            current_period: self.current_period,
            demurrage_amount: self.demurrage_amount,
            sink_address: self.sink_address.clone(),
            minimum_participant_spend: self.minimum_participant_spend,
            tax_level: self.tax_level,
        }
    }
}

impl TokenInfo {
    /// A copy of the token's record.
    pub fn duplicate(&self) -> (r: TokenInfo)
        ensures
            r == *self,
    {
        let mint = match &self.mint {
            Some(m) => Some(MinterData { minter: m.minter.clone(), cap: m.cap }),
            None => None,
        };
        TokenInfo {
            name: self.name.clone(),
            symbol: self.symbol.clone(),
            decimals: self.decimals,
            total_supply: self.total_supply,
            mint,
        }
    }
}

} // verus!
