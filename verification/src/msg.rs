//! What callers hand to the ledger: the messages, who sends them and when.

use vstd::prelude::*;
use crate::allowances::Expiration;
use crate::clock::Timestamp;

verus! {

/// The block in which a message is handled.
#[derive(Debug, Clone, Copy, PartialEq, Eq)]
pub struct BlockInfo {
    pub height: u64,
    pub time: Timestamp,
}

/// The surroundings in which a message is handled.
#[derive(Debug, Clone, Copy, PartialEq, Eq)]
pub struct Env {
    pub block: BlockInfo,
}

/// Who sent a message.
#[derive(Debug, Clone, PartialEq, Eq)]
pub struct MessageInfo {
    pub sender: String,
}

/// An account and an amount for it.
#[derive(Debug, Clone, PartialEq, Eq)]
pub struct Cw20Coin {
    pub address: String,
    pub amount: u128,
}

/// Who may mint, and up to what total supply.
#[derive(Debug, Clone, PartialEq, Eq)]
pub struct MinterResponse {
    pub minter: String,
    pub cap: Option<u128>,
}

/// What a new ledger is set up with.
#[derive(Debug, Clone, PartialEq, Eq)]
pub struct InstantiateMsg {
    pub name: String,
    pub symbol: String,
    pub decimals: u32,
    pub initial_balances: Vec<Cw20Coin>,
    pub mint: Option<MinterResponse>,
    /// The tax of one minute, at the scale of `RESOLUTION_FACTOR`.
    pub tax_level_minute: u128,
    /// The length of one period in minutes.
    pub period_minutes: u64,
    pub supply_cap: u128,
    pub sink_address: String,
}

impl InstantiateMsg {
    /// The minter's cap, if there is a minter and it has one.
    pub open spec fn cap(&self) -> Option<u128> {
        match self.mint {
            Some(m) => m.cap,
            None => None,
        }
    }

    /// The minter's cap, if there is a minter and it has one.
    pub fn get_cap(&self) -> (r: Option<u128>)
        ensures
            r == self.cap(),
    {
        match &self.mint {
            Some(m) => m.cap,
            None => None,
        }
    }
}

/// The operations that change the ledger.
#[derive(Debug, Clone, PartialEq, Eq)]
pub enum ExecuteMsg {
    Transfer { recipient: String, amount: u128 },
    Burn { amount: u128 },
    Send { contract: String, amount: u128, msg: Vec<u8> },
    Mint { recipient: String, amount: u128 },
    IncreaseAllowance { spender: String, amount: u128, expires: Option<Expiration> },
    DecreaseAllowance { spender: String, amount: u128, expires: Option<Expiration> },
    TransferFrom { owner: String, recipient: String, amount: u128 },
    UpdateMinter { new_minter: String },
    ChangeSinkAddress { address: String },
    ChangeTaxLevel { amount: u128 },
}

/// The questions that the ledger answers.
#[derive(Debug, Clone, PartialEq, Eq)]
pub enum QueryMsg {
    Balance { address: String },
    TokenInfo {  },
    Minter {  },
    DemurrageAmount {  },
    TaxLevel {  },
    SinkAccount {  },
}

/// A message to be delivered to a contract.
#[derive(Debug, Clone, PartialEq, Eq)]
pub struct WasmExecute {
    pub contract_addr: String,
    pub msg: Vec<u8>,
}

/// What an operation that succeeded hands back: the messages that it asks to
/// have sent on.
#[derive(Debug, Clone, PartialEq, Eq)]
pub struct Response {
    pub messages: Vec<WasmExecute>,
}

impl Response {
    /// A response that asks for nothing to be sent on.
    pub fn new() -> (r: Response)
        ensures
            r.messages@.len() == 0,
    {
        Response { messages: Vec::new() }
    }
}

} // verus!
