//! The operations of the ledger. Each one either completes or leaves the
//! ledger as it was.

use vstd::prelude::*;
use crate::allowances::{allowance_in, AllowanceResponse, Allowances, Expiration};
use crate::balances::{balance_in, credit_spec, debit_spec, Balances};
use crate::clock::Timestamp;
use crate::engine::{advance, advance_spec, lemma_advance_idempotent};
use crate::error::{ContractError, BasicError};
use crate::ledger::{Ledger, LedgerView};
use crate::math::{to_base_amount, to_base_amount_spec, DEMURRAGE_UNIT, MAX_SAFE_SUPPLY};
use crate::msg::{
    BlockInfo, Cw20Coin, Env, ExecuteMsg, InstantiateMsg, MessageInfo, MinterResponse, QueryMsg,
    Response, WasmExecute,
};
use crate::query::{
    BalanceResponse, DemurrageAmountResponse, QueryResponse, SinkAddressResponse,
    TaxLevelResponse, TokenInfoResponse,
};
use crate::receiver::{receive_msg_bytes, receive_msg_into_binary};
use crate::state::{MinterData, State, TokenInfo};

verus! {

/// Some address stands in the row twice.
pub open spec fn has_duplicates(accounts: Seq<Cw20Coin>) -> bool {
    exists|i: int, j: int|
        0 <= i < j < accounts.len() && accounts[i].address@ == accounts[j].address@
}

/// The sum of the amounts of a row of accounts.
pub open spec fn sum_amounts(accounts: Seq<Cw20Coin>) -> int
    decreases accounts.len(),
{
    if accounts.len() == 0 {
        0
    } else {
        sum_amounts(accounts.drop_last()) + accounts.last().amount
    }
}

/// The balances after each account of the row was given its amount.
pub open spec fn with_accounts(balances: Map<Seq<char>, u128>, accounts: Seq<Cw20Coin>) -> Map<
    Seq<char>,
    u128,
>
    decreases accounts.len(),
{
    if accounts.len() == 0 {
        balances
    } else {
        with_accounts(balances, accounts.drop_last()).insert(
            accounts.last().address@,
            accounts.last().amount,
        )
    }
}

/// The amounts of the first accounts of a row sum to no more than those of
/// the whole row.
pub proof fn lemma_sum_prefix(accounts: Seq<Cw20Coin>, i: int)
    requires
        0 <= i <= accounts.len(),
    ensures
        0 <= sum_amounts(accounts.subrange(0, i)) <= sum_amounts(accounts),
    decreases accounts.len(),
{
    if i == accounts.len() {
        assert(accounts.subrange(0, i) == accounts);
        if i > 0 {
            lemma_sum_prefix(accounts.drop_last(), i - 1);
            assert(accounts.drop_last().subrange(0, i - 1) == accounts.drop_last());
        }
    } else {
        lemma_sum_prefix(accounts.drop_last(), i);
        assert(accounts.drop_last().subrange(0, i) == accounts.subrange(0, i));
    }
}

/// Accepts a row of accounts in which no address stands twice, and fails with
/// `DuplicateInitialBalanceAddresses` on any other.
pub fn validate_accounts(accounts: &Vec<Cw20Coin>) -> (r: Result<(), ContractError>)
    ensures
        has_duplicates(accounts@) ==> r == Err::<(), ContractError>(
            ContractError::DuplicateInitialBalanceAddresses,
        ),
        !has_duplicates(accounts@) ==> r is Ok,
{
    let mut j: usize = 0;
    while j < accounts.len()
        invariant
            j <= accounts@.len(),
            forall|a: int, b: int| 0 <= a < b < j ==> accounts@[a].address@ != accounts@[b].address@,
        decreases accounts@.len() - j,
    {
        let mut i: usize = 0;
        while i < j
            invariant
                i <= j < accounts@.len(),
                forall|a: int| 0 <= a < i ==> accounts@[a].address@ != accounts@[j as int].address@,
            decreases j - i,
        {
            if accounts[i].address == accounts[j].address {
                assert(0 <= i < j < accounts@.len() && accounts@[i as int].address@
                    == accounts@[j as int].address@);
                return Err(ContractError::DuplicateInitialBalanceAddresses);
            }
            i = i + 1;
        }
        j = j + 1;
    }
    Ok(())
}

/// What `create_accounts` makes of the balances, and the sum it returns.
pub open spec fn create_accounts_spec(balances: Map<Seq<char>, u128>, accounts: Seq<Cw20Coin>)
    -> Result<(Map<Seq<char>, u128>, u128), ContractError> {
    if has_duplicates(accounts) {
        Err(ContractError::DuplicateInitialBalanceAddresses)
    } else if sum_amounts(accounts) > u128::MAX {
        Err(ContractError::ArithmeticOverflow)
    } else {
        Ok((with_accounts(balances, accounts), sum_amounts(accounts) as u128))
    }
}

/// Gives each account of the row its amount as its balance and returns the sum
/// of the amounts. A row that names an address twice is refused with
/// `DuplicateInitialBalanceAddresses`, a sum that does not fit in 128 bits with
/// `ArithmeticOverflow`; the balances then stay as they were.
pub fn create_accounts(balances: &mut Balances, accounts: &Vec<Cw20Coin>) -> (r: Result<
    u128,
    ContractError,
>)
    requires
        old(balances).wf(),
    ensures
        final(balances).wf(),
        match create_accounts_spec(old(balances)@, accounts@) {
            Ok((next, total)) => r == Ok::<u128, ContractError>(total) && final(balances)@
                == next,
            Err(e) => r == Err::<u128, ContractError>(e)
                && final(balances)@ == old(balances)@,
        },
{
    match validate_accounts(accounts) {
        Ok(_) => {},
        Err(e) => {
            return Err(e);
        },
    }
    let mut total_supply: u128 = 0;
    let mut i: usize = 0;
    while i < accounts.len()
        invariant
            i <= accounts@.len(),
            total_supply == sum_amounts(accounts@.subrange(0, i as int)),
            !has_duplicates(accounts@),
            balances.wf(),
            balances@ == old(balances)@,
        decreases accounts@.len() - i,
    {
        proof {
            assert(accounts@.subrange(0, i + 1).drop_last() == accounts@.subrange(0, i as int));
            lemma_sum_prefix(accounts@, i + 1);
        }
        total_supply = match total_supply.checked_add(accounts[i].amount) {
            Some(s) => s,
            None => {
                return Err(ContractError::ArithmeticOverflow);
            },
        };
        i = i + 1;
    }
    assert(accounts@.subrange(0, i as int) == accounts@);
    let mut k: usize = 0;
    while k < accounts.len()
        invariant
            k <= accounts@.len(),
            !has_duplicates(accounts@),
            total_supply == sum_amounts(accounts@),
            balances.wf(),
            balances@ == with_accounts(old(balances)@, accounts@.subrange(0, k as int)),
        decreases accounts@.len() - k,
    {
        proof {
            assert(accounts@.subrange(0, k + 1).drop_last() == accounts@.subrange(0, k as int));
        }
        balances.set(&accounts[k].address, accounts[k].amount);
        k = k + 1;
    }
    assert(accounts@.subrange(0, k as int) == accounts@);
    Ok(total_supply)
}

/// The record of the token that `instantiate` keeps.
pub open spec fn genesis_token(msg: InstantiateMsg, total_supply: u128) -> TokenInfo {
    TokenInfo {
        name: msg.name,
        symbol: msg.symbol,
        decimals: msg.decimals,
        total_supply,
        mint: match msg.mint {
            Some(m) => Some(MinterData { minter: m.minter, cap: m.cap }),
            None => None,
        },
    }
}

/// The ledger after `instantiate`.
pub open spec fn instantiate_spec(ledger: LedgerView, now: Timestamp, msg: InstantiateMsg)
    -> Result<LedgerView, ContractError> {
    match create_accounts_spec(ledger.balances, msg.initial_balances@) {
        Err(e) => Err(e),
        Ok((balances, total)) => if msg.cap() is Some && total > msg.cap()->Some_0 {
            Err(
                ContractError::Std(
                    BasicError::GenericErr { msg: "Initial supply greater than cap" },
                ),
            )
        } else if total > MAX_SAFE_SUPPLY || msg.period_minutes * 60 > u64::MAX || msg.decimals
            > 9 {
            Err(ContractError::ArithmeticOverflow)
        } else {
            Ok(
                LedgerView {
                    token_info: Some(genesis_token(msg, total)),
                    state: Some(
                        State::genesis_spec(
                            now,
                            msg.period_minutes,
                            DEMURRAGE_UNIT,
                            msg.tax_level_minute,
                            msg.sink_address,
                            msg.decimals,
                        ),
                    ),
                    balances,
                    allowances: ledger.allowances,
                },
            )
        },
    }
}

/// Sets the ledger up: gives the initial accounts their balances, starts the
/// demurrage schedule at the time of the block, with the factor at one whole
/// unit, and records the token. Refused are initial balances that name an
/// address twice, a supply above the minter's cap, and, with
/// `ArithmeticOverflow`, a supply above `MAX_SAFE_SUPPLY`, a period whose
/// seconds do not fit in 64 bits and more than nine decimals.
pub fn instantiate(ledger: &mut Ledger, env: &Env, info: &MessageInfo, msg: InstantiateMsg) -> (r:
    Result<Response, ContractError>)
    requires
        old(ledger).wf(),
    ensures
        final(ledger).wf(),
        match instantiate_spec(old(ledger)@, env.block.time, msg) {
            Ok(next) => r is Ok && r->Ok_0.messages@.len() == 0 && final(ledger)@ == next,
            Err(e) => r == Err::<Response, ContractError>(e) && final(ledger)@ == old(ledger)@,
        },
{
    let mut balances = ledger.balances.snapshot();
    let total_supply: u128 = match create_accounts(&mut balances, &msg.initial_balances) {
        Ok(t) => t,
        Err(e) => {
            return Err(e);
        },
    };
    match msg.get_cap() {
        Some(limit) => {
            if total_supply > limit {
                return Err(
                    ContractError::Std(BasicError::generic_err("Initial supply greater than cap")),
                );
            }
        },
        None => {},
    }
    if total_supply > MAX_SAFE_SUPPLY {
        return Err(ContractError::ArithmeticOverflow);
    }
    let mint = match msg.mint {
        Some(m) => Some(MinterData { minter: m.minter, cap: m.cap }),
        None => None,
    };
    let state = match State::genesis(
        env.block.time,
        msg.period_minutes,
        DEMURRAGE_UNIT,
        msg.tax_level_minute,
        msg.sink_address,
        msg.decimals,
    ) {
        Ok(s) => s,
        Err(e) => {
            return Err(e);
        },
    };
    let data = TokenInfo {
        name: msg.name,
        symbol: msg.symbol,
        decimals: msg.decimals,
        total_supply,
        mint,
    };
    ledger.balances = balances;
    ledger.state = Some(state);
    ledger.token_info = Some(data);
    Ok(Response::new())
}

/// Credits the sink account of the schedule with `distribution`. A balance
/// that does not fit in 128 bits is an `ArithmeticOverflow`, and the balances
/// then stay as they were.
pub fn apply_default_redistribution(balances: &mut Balances, state: &State, distribution: u128) -> (r:
    Result<(), ContractError>)
    requires
        old(balances).wf(),
    ensures
        final(balances).wf(),
        match credit_spec(old(balances)@, state.sink_address@, distribution) {
            Ok(next) => r is Ok && final(balances)@ == next,
            Err(e) => r == Err::<(), ContractError>(e) && final(balances)@ == old(balances)@,
        },
{
    balances.credit(&state.sink_address, distribution)
}

/// The ledger after its schedule was brought up to `now`, and whether the
/// period rolled over. The sink account is credited where it did.
pub open spec fn change_period_spec(ledger: LedgerView, now: Timestamp) -> Result<
    (LedgerView, bool),
    ContractError,
> {
    match ledger.state {
        None => Err(ContractError::Uninitialized),
        Some(state) => {
            let total_supply = match ledger.token_info {
                Some(info) => info.total_supply,
                None => 0u128,
            };
            match advance_spec(state, now, total_supply) {
                Err(e) => Err(e),
                Ok((next, owed)) => match owed {
                    None => Ok((LedgerView { state: Some(next), ..ledger }, false)),
                    Some(distribution) => if ledger.token_info is None {
                        Err(ContractError::Unauthorized)
                    } else {
                        match credit_spec(ledger.balances, next.sink_address@, distribution) {
                            Err(e) => Err(e),
                            Ok(balances) => Ok(
                                (LedgerView { state: Some(next), balances, ..ledger }, true),
                            ),
                        }
                    },
                },
            }
        },
    }
}

/// Brings the schedule of the ledger up to the time of the block and, where
/// the period rolls over, credits the sink account with what it is owed of the
/// total supply. Returns whether the period rolled over. A ledger without a
/// schedule is `Uninitialized`; a rollover on a ledger without a token is
/// `Unauthorized`. On an error the ledger stays as it was.
pub fn change_period(ledger: &mut Ledger, env: &Env) -> (r: Result<bool, ContractError>)
    requires
        old(ledger).wf(),
    ensures
        final(ledger).wf(),
        match change_period_spec(old(ledger)@, env.block.time) {
            Ok((next, rolled)) => r == Ok::<bool, ContractError>(rolled) && final(ledger)@
                == next,
            Err(e) => r == Err::<bool, ContractError>(e) && final(ledger)@ == old(ledger)@,
        },
{
    let mut state = match ledger.load_state() {
        Ok(s) => s,
        Err(e) => {
            return Err(e);
        },
    };
    let total_supply: u128 = match &ledger.token_info {
        Some(info) => info.total_supply,
        None => 0,
    };
    let owed = match advance(&mut state, env.block.time, total_supply) {
        Ok(o) => o,
        Err(e) => {
            return Err(e);
        },
    };
    match owed {
        None => {
            ledger.save_state(state);
            Ok(false)
        },
        Some(distribution) => {
            if ledger.token_info.is_none() {
                return Err(ContractError::Unauthorized);
            }
            match apply_default_redistribution(&mut ledger.balances, &state, distribution) {
                Ok(_) => {},
                Err(e) => {
                    return Err(e);
                },
            }
            ledger.save_state(state);
            Ok(true)
        },
    }
}

/// Brought up to a time once, the ledger is up to date: a second
/// `change_period` at the same time changes nothing, neither the schedule nor
/// any balance, and rolls no period over.
pub proof fn lemma_change_period_idempotent(ledger: LedgerView, now: Timestamp)
    requires
        change_period_spec(ledger, now) is Ok,
    ensures
        change_period_spec(change_period_spec(ledger, now)->Ok_0.0, now) == Ok::<
            (LedgerView, bool),
            ContractError,
        >((change_period_spec(ledger, now)->Ok_0.0, false)),
{
    let state = ledger.state->Some_0;
    let total_supply = match ledger.token_info {
        Some(info) => info.total_supply,
        None => 0u128,
    };
    lemma_advance_idempotent(state, now, total_supply, total_supply);
}

/// A time before the one up to which decay was applied is rejected: neither
/// `change_period` nor a transfer goes through at it.
pub proof fn lemma_stale_time_rejected(
    ledger: LedgerView,
    now: Timestamp,
    sender: Seq<char>,
    recipient: Seq<char>,
    amount: u128,
)
    requires
        ledger.state is Some,
        now.secs < ledger.state->Some_0.demurrage_timestamp.secs,
    ensures
        change_period_spec(ledger, now) == Err::<(LedgerView, bool), ContractError>(
            ContractError::NonMonotonicTime,
        ),
        transfer_spec(ledger, now, sender, recipient, amount) == Err::<
            LedgerView,
            ContractError,
        >(ContractError::NonMonotonicTime),
{
}

/// The ledger after a transfer of `amount` from `sender` to `recipient` at
/// `now`: the schedule is brought up to date, the sender gives the nominal
/// amount, and the recipient receives it converted through the factor.
pub open spec fn transfer_spec(
    ledger: LedgerView,
    now: Timestamp,
    sender: Seq<char>,
    recipient: Seq<char>,
    amount: u128,
) -> Result<LedgerView, ContractError> {
    match change_period_spec(ledger, now) {
        Err(e) => Err(e),
        Ok((moved, _)) => match to_base_amount_spec(
            amount,
            moved.state->Some_0.demurrage_amount,
        ) {
            Err(e) => Err(e),
            Ok(base_value) => if amount == 0 {
                Err(ContractError::InvalidZeroAmount)
            } else {
                match debit_spec(moved.balances, sender, amount) {
                    Err(e) => Err(e),
                    Ok(debited) => match credit_spec(debited, recipient, base_value) {
                        Err(e) => Err(e),
                        Ok(balances) => Ok(LedgerView { balances, ..moved }),
                    },
                }
            },
        },
    }
}

/// Transfers `amount` from the sender of the message to `recipient`. The
/// schedule is first brought up to the time of the block. The sender's balance
/// falls by the nominal amount; the recipient's rises by the amount converted
/// through the factor. An amount of zero is an `InvalidZeroAmount`; a sender
/// that holds less than the amount fails with an overflow of the basic
/// bookkeeping. On an error the ledger stays as it was.
pub fn execute_transfer(
    ledger: &mut Ledger,
    env: &Env,
    info: &MessageInfo,
    recipient: String,
    amount: u128,
) -> (r: Result<Response, ContractError>)
    requires
        old(ledger).wf(),
    ensures
        final(ledger).wf(),
        match transfer_spec(old(ledger)@, env.block.time, info.sender@, recipient@, amount) {
            Ok(next) => r is Ok && r->Ok_0.messages@.len() == 0 && final(ledger)@ == next,
            Err(e) => r == Err::<Response, ContractError>(e) && final(ledger)@ == old(ledger)@,
        },
{
    let mut work = ledger.duplicate();
    match change_period(&mut work, env) {
        Ok(_) => {},
        Err(e) => {
            return Err(e);
        },
    }
    let factor: u128 = match &work.state {
        Some(s) => s.demurrage_amount,
        None => {
            return Err(ContractError::Uninitialized);
        },
    };
    let base_value: u128 = match to_base_amount(amount, factor) {
        Ok(b) => b,
        Err(e) => {
            return Err(e);
        },
    };
    if amount == 0 {
        return Err(ContractError::InvalidZeroAmount);
    }
    match work.balances.debit(&info.sender, amount) {
        Ok(_) => {},
        Err(e) => {
            return Err(e);
        },
    }
    match work.balances.credit(&recipient, base_value) {
        Ok(_) => {},
        Err(e) => {
            return Err(e);
        },
    }
    *ledger = work;
    Ok(Response::new())
}

/// The ledger after `amount` is burnt from what `sender` holds.
pub open spec fn burn_spec(ledger: LedgerView, sender: Seq<char>, amount: u128) -> Result<
    LedgerView,
    ContractError,
> {
    if amount == 0 {
        Err(ContractError::InvalidZeroAmount)
    } else {
        match debit_spec(ledger.balances, sender, amount) {
            Err(e) => Err(e),
            Ok(balances) => match ledger.token_info {
                None => Err(ContractError::Std(BasicError::NotFound)),
                Some(info) => if info.total_supply < amount {
                    Err(ContractError::Std(BasicError::Overflow))
                } else {
                    Ok(
                        LedgerView {
                            balances,
                            token_info: Some(
                                TokenInfo {
                                    total_supply: (info.total_supply - amount) as u128,
                                    ..info
                                },
                            ),
                            ..ledger
                        },
                    )
                },
            },
        }
    }
}

/// Burns `amount` from what the sender of the message holds and lowers the
/// total supply by it. An amount of zero is an `InvalidZeroAmount`; a balance
/// or a supply below the amount fails with an overflow of the basic
/// bookkeeping. On an error the ledger stays as it was.
pub fn execute_burn(ledger: &mut Ledger, env: &Env, info: &MessageInfo, amount: u128) -> (r: Result<
    Response,
    ContractError,
>)
    requires
        old(ledger).wf(),
    ensures
        final(ledger).wf(),
        match burn_spec(old(ledger)@, info.sender@, amount) {
            Ok(next) => r is Ok && r->Ok_0.messages@.len() == 0 && final(ledger)@ == next,
            Err(e) => r == Err::<Response, ContractError>(e) && final(ledger)@ == old(ledger)@,
        },
{
    if amount == 0 {
        return Err(ContractError::InvalidZeroAmount);
    }
    let mut work = ledger.duplicate();
    match work.balances.debit(&info.sender, amount) {
        Ok(_) => {},
        Err(e) => {
            return Err(e);
        },
    }
    let mut config = match work.token_info {
        Some(c) => c,
        None => {
            return Err(ContractError::Std(BasicError::NotFound));
        },
    };
    config.total_supply = match config.total_supply.checked_sub(amount) {
        Some(rest) => rest,
        None => {
            return Err(ContractError::Std(BasicError::Overflow));
        },
    };
    ledger.balances = work.balances;
    ledger.token_info = Some(config);
    Ok(Response::new())
}

/// The record of the token after `amount` was minted by `sender`.
pub open spec fn minted_token(ledger: LedgerView, sender: Seq<char>, amount: u128) -> Result<
    TokenInfo,
    ContractError,
> {
    if amount == 0 {
        Err(ContractError::InvalidZeroAmount)
    } else {
        match ledger.token_info {
            None => Err(ContractError::Unauthorized),
            Some(info) => if ledger.state is None {
                Err(ContractError::Uninitialized)
            } else if info.mint is None || info.mint->Some_0.minter@ != sender {
                Err(ContractError::Unauthorized)
            } else if info.total_supply + amount > u128::MAX {
                Err(ContractError::ArithmeticOverflow)
            } else if info.cap() is Some && info.total_supply + amount > info.cap()->Some_0 {
                Err(ContractError::CannotExceedCap)
            } else {
                Ok(TokenInfo { total_supply: (info.total_supply + amount) as u128, ..info })
            },
        }
    }
}

/// The ledger after `sender` minted `amount` for `recipient` at `now`: the
/// total supply rises by the nominal amount, the schedule is brought up to
/// date, and the recipient receives the amount converted through the factor.
pub open spec fn mint_spec(
    ledger: LedgerView,
    now: Timestamp,
    sender: Seq<char>,
    recipient: Seq<char>,
    amount: u128,
) -> Result<LedgerView, ContractError> {
    match minted_token(ledger, sender, amount) {
        Err(e) => Err(e),
        Ok(info) => match change_period_spec(LedgerView { token_info: Some(info), ..ledger }, now) {
            Err(e) => Err(e),
            Ok((moved, _)) => match to_base_amount_spec(
                amount,
                moved.state->Some_0.demurrage_amount,
            ) {
                Err(e) => Err(e),
                Ok(base_value) => match credit_spec(moved.balances, recipient, base_value) {
                    Err(e) => Err(e),
                    Ok(balances) => Ok(LedgerView { balances, ..moved }),
                },
            },
        },
    }
}

/// Mints `amount` for `recipient`. Only the minter may, and only up to its
/// cap; anyone else is `Unauthorized`, and more than the cap is
/// `CannotExceedCap`. The total supply rises by the nominal amount, the schedule
/// is brought up to the time of the block, and the recipient's balance rises by
/// the amount converted through the factor. On an error the ledger stays as it
/// was.
pub fn execute_mint(
    ledger: &mut Ledger,
    env: &Env,
    info: &MessageInfo,
    recipient: String,
    amount: u128,
) -> (r: Result<Response, ContractError>)
    requires
        old(ledger).wf(),
    ensures
        final(ledger).wf(),
        match mint_spec(old(ledger)@, env.block.time, info.sender@, recipient@, amount) {
            Ok(next) => r is Ok && r->Ok_0.messages@.len() == 0 && final(ledger)@ == next,
            Err(e) => r == Err::<Response, ContractError>(e) && final(ledger)@ == old(ledger)@,
        },
{
    if amount == 0 {
        return Err(ContractError::InvalidZeroAmount);
    }
    let mut work = ledger.duplicate();
    let mut config = match work.token_info {
        Some(c) => c,
        None => {
            return Err(ContractError::Unauthorized);
        },
    };
    if work.state.is_none() {
        return Err(ContractError::Uninitialized);
    }
    match &config.mint {
        Some(m) => {
            if m.minter != info.sender {
                return Err(ContractError::Unauthorized);
            }
        },
        None => {
            return Err(ContractError::Unauthorized);
        },
    }
    config.total_supply = match config.total_supply.checked_add(amount) {
        Some(s) => s,
        None => {
            return Err(ContractError::ArithmeticOverflow);
        },
    };
    match config.get_cap() {
        Some(limit) => {
            if config.total_supply > limit {
                return Err(ContractError::CannotExceedCap);
            }
        },
        None => {},
    }
    work.token_info = Some(config);
    match change_period(&mut work, env) {
        Ok(_) => {},
        Err(e) => {
            return Err(e);
        },
    }
    let factor: u128 = match &work.state {
        Some(s) => s.demurrage_amount,
        None => {
            return Err(ContractError::Uninitialized);
        },
    };
    let base_value: u128 = match to_base_amount(amount, factor) {
        Ok(b) => b,
        Err(e) => {
            return Err(e);
        },
    };
    match work.balances.credit(&recipient, base_value) {
        Ok(_) => {},
        Err(e) => {
            return Err(e);
        },
    }
    *ledger = work;
    Ok(Response::new())
}

/// The ledger after the tax of one minute was set to `amount`.
pub open spec fn change_tax_level_spec(ledger: LedgerView, amount: u128) -> Result<
    LedgerView,
    ContractError,
> {
    match ledger.state {
        None => Err(ContractError::Uninitialized),
        Some(state) => Ok(LedgerView { state: Some(State { tax_level: amount, ..state }), ..ledger }),
    }
}

/// Sets the tax of one minute. A ledger without a schedule is `Uninitialized`.
/// Nothing else changes.
pub fn execute_change_tax_level(ledger: &mut Ledger, amount: u128) -> (r: Result<
    Response,
    ContractError,
>)
    requires
        old(ledger).wf(),
    ensures
        final(ledger).wf(),
        match change_tax_level_spec(old(ledger)@, amount) {
            Ok(next) => r is Ok && r->Ok_0.messages@.len() == 0 && final(ledger)@ == next,
            Err(e) => r == Err::<Response, ContractError>(e) && final(ledger)@ == old(ledger)@,
        },
{
    let mut state = match ledger.load_state() {
        Ok(s) => s,
        Err(e) => {
            return Err(e);
        },
    };
    state.set_tax_rate(amount);
    ledger.save_state(state);
    Ok(Response::new())
}

/// The ledger after `sink_addr` was named as the sink account.
pub open spec fn change_sink_address_spec(ledger: LedgerView, sink_addr: String) -> Result<
    LedgerView,
    ContractError,
> {
    match ledger.state {
        None => Err(ContractError::Uninitialized),
        Some(state) => Ok(
            LedgerView { state: Some(State { sink_address: sink_addr, ..state }), ..ledger },
        ),
    }
}

/// Names another sink account. A ledger without a schedule is `Uninitialized`.
/// Nothing else changes.
pub fn execute_change_sink_address(ledger: &mut Ledger, sink_addr: String) -> (r: Result<
    Response,
    ContractError,
>)
    requires
        old(ledger).wf(),
    ensures
        final(ledger).wf(),
        match change_sink_address_spec(old(ledger)@, sink_addr) {
            Ok(next) => r is Ok && r->Ok_0.messages@.len() == 0 && final(ledger)@ == next,
            Err(e) => r == Err::<Response, ContractError>(e) && final(ledger)@ == old(ledger)@,
        },
{
    let mut state = match ledger.load_state() {
        Ok(s) => s,
        Err(e) => {
            return Err(e);
        },
    };
    state.set_sink_address(sink_addr);
    ledger.save_state(state);
    Ok(Response::new())
}

/// Whether `sender` is the minter of the ledger.
pub open spec fn is_minter(ledger: LedgerView, sender: Seq<char>) -> bool {
    ledger.token_info is Some && ledger.token_info->Some_0.mint is Some
        && ledger.token_info->Some_0.mint->Some_0.minter@ == sender
}

/// The ledger after `sender` handed the right to mint to `new_minter`.
pub open spec fn update_minter_spec(ledger: LedgerView, sender: Seq<char>, new_minter: String)
    -> Result<LedgerView, ContractError> {
    if !is_minter(ledger, sender) {
        Err(ContractError::Unauthorized)
    } else {
        Ok(
            LedgerView {
                token_info: Some(
                    TokenInfo {
                        mint: Some(
                            MinterData {
                                minter: new_minter,
                                cap: ledger.token_info->Some_0.mint->Some_0.cap,
                            },
                        ),
                        ..ledger.token_info->Some_0
                    },
                ),
                ..ledger
            },
        )
    }
}

/// Hands the right to mint to `new_minter`; the cap stays. Only the minter
/// may: anyone else, and anyone on a ledger without a minter, is
/// `Unauthorized`, and the ledger then stays as it was.
pub fn execute_update_minter(
    ledger: &mut Ledger,
    env: &Env,
    info: &MessageInfo,
    new_minter: String,
) -> (r: Result<Response, ContractError>)
    requires
        old(ledger).wf(),
    ensures
        final(ledger).wf(),
        match update_minter_spec(old(ledger)@, info.sender@, new_minter) {
            Ok(next) => r is Ok && r->Ok_0.messages@.len() == 0 && final(ledger)@ == next,
            Err(e) => r == Err::<Response, ContractError>(e) && final(ledger)@ == old(ledger)@,
        },
{
    let mut config = match &ledger.token_info {
        Some(c) => c.duplicate(),
        None => {
            return Err(ContractError::Unauthorized);
        },
    };
    let cap = match &config.mint {
        Some(m) => {
            if m.minter != info.sender {
                return Err(ContractError::Unauthorized);
            }
            m.cap
        },
        None => {
            return Err(ContractError::Unauthorized);
        },
    };
    config.mint = Some(MinterData { minter: new_minter, cap });
    ledger.token_info = Some(config);
    Ok(Response::new())
}

/// The ledger after `sender` sent `amount` to `contract`: the amount moves as
/// it is, without conversion.
pub open spec fn send_spec(ledger: LedgerView, sender: Seq<char>, contract: Seq<char>, amount: u128)
    -> Result<LedgerView, ContractError> {
    if amount == 0 {
        Err(ContractError::InvalidZeroAmount)
    } else {
        match debit_spec(ledger.balances, sender, amount) {
            Err(e) => Err(e),
            Ok(debited) => match credit_spec(debited, contract, amount) {
                Err(e) => Err(e),
                Ok(balances) => Ok(LedgerView { balances, ..ledger }),
            },
        }
    }
}

/// Moves `amount` from the sender of the message to `contract` and asks for
/// `payload` to be delivered to it, where `payload` is the outcome of putting
/// the message for the contract into bytes. An amount of zero is an
/// `InvalidZeroAmount`; a sender that holds less fails with an overflow of the
/// basic bookkeeping; a payload that could not be made is a serialisation
/// error. On an error the ledger stays as it was.
pub fn complete_send(
    ledger: &mut Ledger,
    info: &MessageInfo,
    contract: String,
    amount: u128,
    payload: Result<Vec<u8>, BasicError>,
) -> (r: Result<Response, ContractError>)
    requires
        old(ledger).wf(),
    ensures
        final(ledger).wf(),
        match send_spec(old(ledger)@, info.sender@, contract@, amount) {
            Ok(next) => match payload {
                Ok(bytes) => r is Ok && final(ledger)@ == next && r->Ok_0.messages@.len() == 1
                    && r->Ok_0.messages@[0].contract_addr == contract
                    && r->Ok_0.messages@[0].msg == bytes,
                Err(e) => r == Err::<Response, ContractError>(ContractError::Std(e))
                    && final(ledger)@ == old(ledger)@,
            },
            Err(e) => r == Err::<Response, ContractError>(e) && final(ledger)@ == old(ledger)@,
        },
{
    if amount == 0 {
        return Err(ContractError::InvalidZeroAmount);
    }
    let mut balances = ledger.balances.snapshot();
    match balances.debit(&info.sender, amount) {
        Ok(_) => {},
        Err(e) => {
            return Err(e);
        },
    }
    match balances.credit(&contract, amount) {
        Ok(_) => {},
        Err(e) => {
            return Err(e);
        },
    }
    let bytes = match payload {
        Ok(b) => b,
        Err(e) => {
            return Err(ContractError::Std(e));
        },
    };
    ledger.balances = balances;
    let mut res = Response::new();
    res.messages.push(WasmExecute { contract_addr: contract, msg: bytes });
    Ok(res)
}

/// Sends `amount` from the sender of the message to `contract`, and asks for
/// the contract to be told, in the bytes of a receive message that names the
/// sender, the amount and `msg`. The amount moves as it is, without
/// conversion. Where the bytes cannot be made, the result is a serialisation
/// error; every other outcome is that of `complete_send`. On an error the
/// ledger stays as it was.
pub fn execute_send(
    ledger: &mut Ledger,
    env: &Env,
    info: &MessageInfo,
    contract: String,
    amount: u128,
    msg: Vec<u8>,
) -> (r: Result<Response, ContractError>)
    requires
        old(ledger).wf(),
    ensures
        final(ledger).wf(),
        match send_spec(old(ledger)@, info.sender@, contract@, amount) {
            Ok(next) => {
                &&& r is Ok ==> final(ledger)@ == next && r->Ok_0.messages@.len() == 1
                    && r->Ok_0.messages@[0].contract_addr == contract
                    && r->Ok_0.messages@[0].msg@ == receive_msg_bytes(info.sender@, amount, msg@)
                &&& r is Err ==> r == Err::<Response, ContractError>(
                    ContractError::Std(BasicError::SerializeErr),
                ) && final(ledger)@ == old(ledger)@
            },
            Err(e) => r == Err::<Response, ContractError>(e) && final(ledger)@ == old(ledger)@,
        },
{
    let payload: Result<Vec<u8>, BasicError> = match receive_msg_into_binary(
        &info.sender,
        amount,
        &msg,
    ) {
        Ok(bytes) => Ok(bytes),
        Err(_) => Err(BasicError::SerializeErr),
    };
    complete_send(ledger, info, contract, amount, payload)
}

/// The allowances after `owner` let `spender` take `amount` more, where
/// `base_value` is the amount converted through the factor: the allowance
/// rises by both, and ends at `expires` where one is given.
pub open spec fn increase_allowance_spec(
    ledger: LedgerView,
    owner: Seq<char>,
    spender: Seq<char>,
    amount: u128,
    expires: Option<Expiration>,
) -> Result<LedgerView, ContractError> {
    if spender == owner {
        Err(ContractError::CannotSetOwnAccount)
    } else {
        match ledger.state {
            None => Err(ContractError::Uninitialized),
            Some(state) => match to_base_amount_spec(amount, state.demurrage_amount) {
                Err(e) => Err(e),
                Ok(base_value) => {
                    let current = allowance_in(ledger.allowances, owner, spender);
                    if current.allowance + amount + base_value > u128::MAX {
                        Err(ContractError::ArithmeticOverflow)
                    } else {
                        Ok(
                            LedgerView {
                                allowances: ledger.allowances.insert(
                                    (owner, spender),
                                    AllowanceResponse {
                                        allowance: (current.allowance + amount + base_value) as u128,
                                        expires: match expires {
                                            Some(e) => e,
                                            None => current.expires,
                                        },
                                    },
                                ),
                                ..ledger
                            },
                        )
                    }
                },
            },
        }
    }
}

/// Lets `spender` take more of what the sender of the message holds: the
/// allowance rises by `amount` and by `amount` converted through the factor,
/// and ends at `expires` where one is given. An allowance for oneself is a
/// `CannotSetOwnAccount`. On an error the ledger stays as it was.
pub fn execute_increase_allowance(
    ledger: &mut Ledger,
    env: &Env,
    info: &MessageInfo,
    spender: String,
    amount: u128,
    expires: Option<Expiration>,
) -> (r: Result<Response, ContractError>)
    requires
        old(ledger).wf(),
    ensures
        final(ledger).wf(),
        match increase_allowance_spec(old(ledger)@, info.sender@, spender@, amount, expires) {
            Ok(next) => r is Ok && r->Ok_0.messages@.len() == 0 && final(ledger)@ == next,
            Err(e) => r == Err::<Response, ContractError>(e) && final(ledger)@ == old(ledger)@,
        },
{
    if spender == info.sender {
        return Err(ContractError::CannotSetOwnAccount);
    }
    let factor: u128 = match &ledger.state {
        Some(s) => s.demurrage_amount,
        None => {
            return Err(ContractError::Uninitialized);
        },
    };
    let base_value: u128 = match to_base_amount(amount, factor) {
        Ok(b) => b,
        Err(e) => {
            return Err(e);
        },
    };
    let mut val = match ledger.allowances.get(&info.sender, &spender) {
        Some(a) => a,
        None => AllowanceResponse { allowance: 0, expires: Expiration::Never },
    };
    match expires {
        Some(exp) => {
            val.expires = exp;
        },
        None => {},
    }
    let raised: u128 = match amount.checked_add(base_value) {
        Some(a) => a,
        None => {
            return Err(ContractError::ArithmeticOverflow);
        },
    };
    val.allowance = match val.allowance.checked_add(raised) {
        Some(a) => a,
        None => {
            return Err(ContractError::ArithmeticOverflow);
        },
    };
    ledger.allowances.set(&info.sender, &spender, val);
    Ok(Response::new())
}

/// The allowances after `owner` let `spender` take `amount` less: an
/// allowance that is above the amount falls by it, and ends at `expires` where
/// one is given; any other is taken away.
pub open spec fn decrease_allowance_spec(
    ledger: LedgerView,
    owner: Seq<char>,
    spender: Seq<char>,
    amount: u128,
    expires: Option<Expiration>,
) -> Result<LedgerView, ContractError> {
    if spender == owner {
        Err(ContractError::CannotSetOwnAccount)
    } else if !ledger.allowances.dom().contains((owner, spender)) {
        Err(ContractError::Std(BasicError::NotFound))
    } else {
        let current = ledger.allowances[(owner, spender)];
        if amount < current.allowance {
            Ok(
                LedgerView {
                    allowances: ledger.allowances.insert(
                        (owner, spender),
                        AllowanceResponse {
                            allowance: (current.allowance - amount) as u128,
                            expires: match expires {
                                Some(e) => e,
                                None => current.expires,
                            },
                        },
                    ),
                    ..ledger
                },
            )
        } else {
            Ok(LedgerView { allowances: ledger.allowances.remove((owner, spender)), ..ledger })
        }
    }
}

/// Lets `spender` take less of what the sender of the message holds. An
/// allowance above `amount` falls by it; any other is taken away. An allowance
/// for oneself is a `CannotSetOwnAccount`; a pair without an allowance is not
/// found. On an error the ledger stays as it was.
pub fn execute_decrease_allowance(
    ledger: &mut Ledger,
    env: &Env,
    info: &MessageInfo,
    spender: String,
    amount: u128,
    expires: Option<Expiration>,
) -> (r: Result<Response, ContractError>)
    requires
        old(ledger).wf(),
    ensures
        final(ledger).wf(),
        match decrease_allowance_spec(old(ledger)@, info.sender@, spender@, amount, expires) {
            Ok(next) => r is Ok && r->Ok_0.messages@.len() == 0 && final(ledger)@ == next,
            Err(e) => r == Err::<Response, ContractError>(e) && final(ledger)@ == old(ledger)@,
        },
{
    if spender == info.sender {
        return Err(ContractError::CannotSetOwnAccount);
    }
    let mut allowance = match ledger.allowances.get(&info.sender, &spender) {
        Some(a) => a,
        None => {
            return Err(ContractError::Std(BasicError::NotFound));
        },
    };
    if amount < allowance.allowance {
        allowance.allowance = allowance.allowance - amount;
        match expires {
            Some(exp) => {
                allowance.expires = exp;
            },
            None => {},
        }
        ledger.allowances.set(&info.sender, &spender, allowance);
    } else {
        ledger.allowances.remove(&info.sender, &spender);
    }
    Ok(Response::new())
}

/// The allowances after `spender` took `amount` of what `owner` lets it
/// take, and the allowance that is left.
pub open spec fn deduct_allowance_spec(
    allowances: Map<(Seq<char>, Seq<char>), AllowanceResponse>,
    owner: Seq<char>,
    spender: Seq<char>,
    block: BlockInfo,
    amount: u128,
) -> Result<(Map<(Seq<char>, Seq<char>), AllowanceResponse>, AllowanceResponse), ContractError> {
    if !allowances.dom().contains((owner, spender)) {
        Err(ContractError::NoAllowance)
    } else {
        let current = allowances[(owner, spender)];
        if current.expires.expired(block) {
            Err(ContractError::Expired)
        } else if current.allowance < amount {
            Err(ContractError::Std(BasicError::Overflow))
        } else {
            let left = AllowanceResponse {
                allowance: (current.allowance - amount) as u128,
                expires: current.expires,
            };
            Ok((allowances.insert((owner, spender), left), left))
        }
    }
}

/// Takes `amount` from what `owner` lets `spender` take and returns the
/// allowance that is left. A pair without an allowance is a `NoAllowance`; an
/// allowance that has ended in `block` is `Expired`; one below the amount
/// fails with an overflow of the basic bookkeeping. On an error the allowances
/// stay as they were.
pub fn deduct_allowance(
    allowances: &mut Allowances,
    owner: &String,
    spender: &String,
    block: &BlockInfo,
    amount: u128,
) -> (r: Result<AllowanceResponse, ContractError>)
    requires
        old(allowances).wf(),
    ensures
        final(allowances).wf(),
        match deduct_allowance_spec(old(allowances)@, owner@, spender@, *block, amount) {
            Ok((next, left)) => r == Ok::<AllowanceResponse, ContractError>(left)
                && final(allowances)@ == next,
            Err(e) => r == Err::<AllowanceResponse, ContractError>(e) && final(allowances)@
                == old(allowances)@,
        },
{
    match allowances.get(owner, spender) {
        Some(mut a) => {
            if a.expires.is_expired(block) {
                Err(ContractError::Expired)
            } else {
                a.allowance = match a.allowance.checked_sub(amount) {
                    Some(rest) => rest,
                    None => {
                        return Err(ContractError::Std(BasicError::Overflow));
                    },
                };
                allowances.set(owner, spender, a);
                Ok(a)
            }
        },
        None => Err(ContractError::NoAllowance),
    }
}

/// The ledger after `spender` transferred `amount` of what `owner` holds to
/// `recipient`: the allowance falls by the amount, the schedule is brought up
/// to date, the owner gives the nominal amount, and the recipient receives it
/// converted through the factor.
pub open spec fn transfer_from_spec(
    ledger: LedgerView,
    block: BlockInfo,
    spender: Seq<char>,
    owner: Seq<char>,
    recipient: Seq<char>,
    amount: u128,
) -> Result<LedgerView, ContractError> {
    match deduct_allowance_spec(ledger.allowances, owner, spender, block, amount) {
        Err(e) => Err(e),
        Ok((allowances, _)) => match change_period_spec(
            LedgerView { allowances, ..ledger },
            block.time,
        ) {
            Err(e) => Err(e),
            Ok((moved, _)) => match to_base_amount_spec(
                amount,
                moved.state->Some_0.demurrage_amount,
            ) {
                Err(e) => Err(e),
                Ok(base_value) => match debit_spec(moved.balances, owner, amount) {
                    Err(e) => Err(e),
                    Ok(debited) => match credit_spec(debited, recipient, base_value) {
                        Err(e) => Err(e),
                        Ok(balances) => Ok(LedgerView { balances, ..moved }),
                    },
                },
            },
        },
    }
}

/// Transfers `amount` of what `owner` holds to `recipient`, on the allowance
/// that `owner` gave the sender of the message. The allowance falls by the
/// amount; then the transfer goes as `execute_transfer` does. On an error the
/// ledger stays as it was.
pub fn execute_transfer_from(
    ledger: &mut Ledger,
    env: &Env,
    info: &MessageInfo,
    owner: String,
    recipient: String,
    amount: u128,
) -> (r: Result<Response, ContractError>)
    requires
        old(ledger).wf(),
    ensures
        final(ledger).wf(),
        match transfer_from_spec(
            old(ledger)@,
            env.block,
            info.sender@,
            owner@,
            recipient@,
            amount,
        ) {
            Ok(next) => r is Ok && r->Ok_0.messages@.len() == 0 && final(ledger)@ == next,
            Err(e) => r == Err::<Response, ContractError>(e) && final(ledger)@ == old(ledger)@,
        },
{
    let mut work = ledger.duplicate();
    match deduct_allowance(&mut work.allowances, &owner, &info.sender, &env.block, amount) {
        Ok(_) => {},
        Err(e) => {
            return Err(e);
        },
    }
    match change_period(&mut work, env) {
        Ok(_) => {},
        Err(e) => {
            return Err(e);
        },
    }
    let factor: u128 = match &work.state {
        Some(s) => s.demurrage_amount,
        None => {
            return Err(ContractError::Uninitialized);
        },
    };
    let base_value: u128 = match to_base_amount(amount, factor) {
        Ok(b) => b,
        Err(e) => {
            return Err(e);
        },
    };
    match work.balances.debit(&owner, amount) {
        Ok(_) => {},
        Err(e) => {
            return Err(e);
        },
    }
    match work.balances.credit(&recipient, base_value) {
        Ok(_) => {},
        Err(e) => {
            return Err(e);
        },
    }
    *ledger = work;
    Ok(Response::new())
}

/// The ledger after the operation that `msg` asks for, sent by `sender`.
pub open spec fn execute_spec(ledger: LedgerView, env: Env, sender: Seq<char>, msg: ExecuteMsg)
    -> Result<LedgerView, ContractError> {
    match msg {
        ExecuteMsg::Transfer { recipient, amount } => transfer_spec(
            ledger,
            env.block.time,
            sender,
            recipient@,
            amount,
        ),
        ExecuteMsg::Burn { amount } => burn_spec(ledger, sender, amount),
        ExecuteMsg::Send { contract, amount, msg } => send_spec(ledger, sender, contract@, amount),
        ExecuteMsg::Mint { recipient, amount } => mint_spec(
            ledger,
            env.block.time,
            sender,
            recipient@,
            amount,
        ),
        ExecuteMsg::IncreaseAllowance { spender, amount, expires } => increase_allowance_spec(
            ledger,
            sender,
            spender@,
            amount,
            expires,
        ),
        ExecuteMsg::DecreaseAllowance { spender, amount, expires } => decrease_allowance_spec(
            ledger,
            sender,
            spender@,
            amount,
            expires,
        ),
        ExecuteMsg::TransferFrom { owner, recipient, amount } => transfer_from_spec(
            ledger,
            env.block,
            sender,
            owner@,
            recipient@,
            amount,
        ),
        ExecuteMsg::UpdateMinter { new_minter } => update_minter_spec(ledger, sender, new_minter),
        ExecuteMsg::ChangeSinkAddress { address } => change_sink_address_spec(ledger, address),
        ExecuteMsg::ChangeTaxLevel { amount } => change_tax_level_spec(ledger, amount),
    }
}

/// Carries out the operation that `msg` asks for. What each operation does
/// is said at its own function. Only a send may fail where `execute_spec`
/// succeeds, with a serialisation error. On an error the ledger stays as it
/// was.
pub fn execute(ledger: &mut Ledger, env: &Env, info: &MessageInfo, msg: ExecuteMsg) -> (r: Result<
    Response,
    ContractError,
>)
    requires
        old(ledger).wf(),
    ensures
        final(ledger).wf(),
        match execute_spec(old(ledger)@, *env, info.sender@, msg) {
            Ok(next) => {
                &&& r is Ok ==> final(ledger)@ == next
                &&& r is Ok && !(msg is Send) ==> r->Ok_0.messages@.len() == 0
                &&& r is Ok && msg is Send ==> r->Ok_0.messages@.len() == 1
                    && r->Ok_0.messages@[0].contract_addr == msg->contract
                    && r->Ok_0.messages@[0].msg@ == receive_msg_bytes(
                    info.sender@,
                    msg->Send_amount,
                    msg->msg@,
                )
                &&& r is Err ==> msg is Send && r == Err::<Response, ContractError>(
                    ContractError::Std(BasicError::SerializeErr),
                ) && final(ledger)@ == old(ledger)@
            },
            Err(e) => r == Err::<Response, ContractError>(e) && final(ledger)@ == old(ledger)@,
        },
{
    match msg {
        ExecuteMsg::Transfer { recipient, amount } => execute_transfer(
            ledger,
            env,
            info,
            recipient,
            amount,
        ),
        ExecuteMsg::Burn { amount } => execute_burn(ledger, env, info, amount),
        ExecuteMsg::Send { contract, amount, msg } => execute_send(
            ledger,
            env,
            info,
            contract,
            amount,
            msg,
        ),
        ExecuteMsg::Mint { recipient, amount } => execute_mint(ledger, env, info, recipient, amount),
        ExecuteMsg::IncreaseAllowance { spender, amount, expires } => execute_increase_allowance(
            ledger,
            env,
            info,
            spender,
            amount,
            expires,
        ),
        ExecuteMsg::DecreaseAllowance { spender, amount, expires } => execute_decrease_allowance(
            ledger,
            env,
            info,
            spender,
            amount,
            expires,
        ),
        ExecuteMsg::TransferFrom { owner, recipient, amount } => execute_transfer_from(
            ledger,
            env,
            info,
            owner,
            recipient,
            amount,
        ),
        ExecuteMsg::UpdateMinter { new_minter } => execute_update_minter(
            ledger,
            env,
            info,
            new_minter,
        ),
        ExecuteMsg::ChangeSinkAddress { address } => execute_change_sink_address(ledger, address),
        ExecuteMsg::ChangeTaxLevel { amount } => execute_change_tax_level(ledger, amount),
    }
}

/// The tax of one minute. A ledger without a schedule has none to give.
pub fn query_tax_level(ledger: &Ledger) -> (r: Result<TaxLevelResponse, BasicError>)
    ensures
        ledger.state is None ==> r == Err::<TaxLevelResponse, BasicError>(BasicError::NotFound),
        ledger.state is Some ==> r == Ok::<TaxLevelResponse, BasicError>(
            TaxLevelResponse { tax_level: ledger.state->Some_0.tax_level },
        ),
{
    match &ledger.state {
        Some(state) => Ok(TaxLevelResponse { tax_level: state.tax_level }),
        None => Err(BasicError::NotFound),
    }
}

/// The sink account. A ledger without a schedule has none to give.
pub fn query_sink_address(ledger: &Ledger) -> (r: Result<SinkAddressResponse, BasicError>)
    ensures
        ledger.state is None ==> r == Err::<SinkAddressResponse, BasicError>(BasicError::NotFound),
        ledger.state is Some ==> r == Ok::<SinkAddressResponse, BasicError>(
            SinkAddressResponse { sink_address: ledger.state->Some_0.sink_address },
        ),
{
    match &ledger.state {
        Some(state) => Ok(SinkAddressResponse { sink_address: state.sink_address.clone() }),
        None => Err(BasicError::NotFound),
    }
}

/// The demurrage factor. A ledger without a schedule has none to give.
pub fn query_demurrage_amount(ledger: &Ledger) -> (r: Result<DemurrageAmountResponse, BasicError>)
    ensures
        ledger.state is None ==> r == Err::<DemurrageAmountResponse, BasicError>(
            BasicError::NotFound,
        ),
        ledger.state is Some ==> r == Ok::<DemurrageAmountResponse, BasicError>(
            DemurrageAmountResponse { demurrage_amount: ledger.state->Some_0.demurrage_amount },
        ),
{
    match &ledger.state {
        Some(state) => Ok(DemurrageAmountResponse { demurrage_amount: state.demurrage_amount }),
        None => Err(BasicError::NotFound),
    }
}

/// What `address` holds: nothing where it has no balance.
pub fn query_balance(ledger: &Ledger, address: String) -> (r: Result<BalanceResponse, BasicError>)
    requires
        ledger.wf(),
    ensures
        r == Ok::<BalanceResponse, BasicError>(
            BalanceResponse { balance: balance_in(ledger.balances@, address@) },
        ),
{
    Ok(BalanceResponse { balance: ledger.balances.balance(&address) })
}

/// The token's name, symbol, decimals and total supply. A ledger without a
/// token has none to give.
pub fn query_token_info(ledger: &Ledger) -> (r: Result<TokenInfoResponse, BasicError>)
    ensures
        ledger.token_info is None ==> r == Err::<TokenInfoResponse, BasicError>(
            BasicError::NotFound,
        ),
        ledger.token_info is Some ==> r == Ok::<TokenInfoResponse, BasicError>(
            TokenInfoResponse {
                name: ledger.token_info->Some_0.name,
                symbol: ledger.token_info->Some_0.symbol,
                decimals: ledger.token_info->Some_0.decimals,
                total_supply: ledger.token_info->Some_0.total_supply,
            },
        ),
{
    match &ledger.token_info {
        Some(info) => Ok(
            TokenInfoResponse {
                name: info.name.clone(),
                symbol: info.symbol.clone(),
                decimals: info.decimals,
                total_supply: info.total_supply,
            },
        ),
        None => Err(BasicError::NotFound),
    }
}

/// The minter and its cap, or `None` where nobody may mint. A ledger without
/// a token has none to give.
pub fn query_minter(ledger: &Ledger) -> (r: Result<Option<MinterResponse>, BasicError>)
    ensures
        ledger.token_info is None ==> r == Err::<Option<MinterResponse>, BasicError>(
            BasicError::NotFound,
        ),
        ledger.token_info is Some ==> r == Ok::<Option<MinterResponse>, BasicError>(
            match ledger.token_info->Some_0.mint {
                Some(m) => Some(MinterResponse { minter: m.minter, cap: m.cap }),
                None => None,
            },
        ),
{
    match &ledger.token_info {
        Some(meta) => {
            let minter = match &meta.mint {
                Some(m) => Some(MinterResponse { minter: m.minter.clone(), cap: m.cap }),
                None => None,
            };
            Ok(minter)
        },
        None => Err(BasicError::NotFound),
    }
}

/// Answers the question that `msg` asks; what each answer holds is said at
/// its own function.
pub fn query(ledger: &Ledger, env: &Env, msg: QueryMsg) -> (r: Result<QueryResponse, BasicError>)
    requires
        ledger.wf(),
    ensures
        match msg {
            QueryMsg::Balance { address } => r == Ok::<QueryResponse, BasicError>(
                QueryResponse::Balance(
                    BalanceResponse { balance: balance_in(ledger.balances@, address@) },
                ),
            ),
            QueryMsg::TokenInfo {  } => match ledger.token_info {
                None => r == Err::<QueryResponse, BasicError>(BasicError::NotFound),
                Some(info) => r == Ok::<QueryResponse, BasicError>(
                    QueryResponse::TokenInfo(
                        TokenInfoResponse {
                            name: info.name,
                            symbol: info.symbol,
                            decimals: info.decimals,
                            total_supply: info.total_supply,
                        },
                    ),
                ),
            },
            QueryMsg::Minter {  } => match ledger.token_info {
                None => r == Err::<QueryResponse, BasicError>(BasicError::NotFound),
                Some(info) => r == Ok::<QueryResponse, BasicError>(
                    QueryResponse::Minter(
                        match info.mint {
                            Some(m) => Some(MinterResponse { minter: m.minter, cap: m.cap }),
                            None => None,
                        },
                    ),
                ),
            },
            QueryMsg::DemurrageAmount {  } => match ledger.state {
                None => r == Err::<QueryResponse, BasicError>(BasicError::NotFound),
                Some(state) => r == Ok::<QueryResponse, BasicError>(
                    QueryResponse::DemurrageAmount(
                        DemurrageAmountResponse { demurrage_amount: state.demurrage_amount },
                    ),
                ),
            },
            QueryMsg::TaxLevel {  } => match ledger.state {
                None => r == Err::<QueryResponse, BasicError>(BasicError::NotFound),
                Some(state) => r == Ok::<QueryResponse, BasicError>(
                    QueryResponse::TaxLevel(TaxLevelResponse { tax_level: state.tax_level }),
                ),
            },
            QueryMsg::SinkAccount {  } => match ledger.state {
                None => r == Err::<QueryResponse, BasicError>(BasicError::NotFound),
                Some(state) => r == Ok::<QueryResponse, BasicError>(
                    QueryResponse::SinkAccount(
                        SinkAddressResponse { sink_address: state.sink_address },
                    ),
                ),
            },
        },
{
    match msg {
        QueryMsg::Balance { address } => match query_balance(ledger, address) {
            Ok(a) => Ok(QueryResponse::Balance(a)),
            Err(e) => Err(e),
        },
        QueryMsg::TokenInfo {  } => match query_token_info(ledger) {
            Ok(a) => Ok(QueryResponse::TokenInfo(a)),
            Err(e) => Err(e),
        },
        QueryMsg::Minter {  } => match query_minter(ledger) {
            Ok(a) => Ok(QueryResponse::Minter(a)),
            Err(e) => Err(e),
        },
        QueryMsg::DemurrageAmount {  } => match query_demurrage_amount(ledger) {
            Ok(a) => Ok(QueryResponse::DemurrageAmount(a)),
            Err(e) => Err(e),
        },
        QueryMsg::TaxLevel {  } => match query_tax_level(ledger) {
            Ok(a) => Ok(QueryResponse::TaxLevel(a)),
            Err(e) => Err(e),
        },
        QueryMsg::SinkAccount {  } => match query_sink_address(ledger) {
            Ok(a) => Ok(QueryResponse::SinkAccount(a)),
            Err(e) => Err(e),
        },
    }
}

} // verus!
