//! The answers of the ledger.

use vstd::prelude::*;
use crate::msg::MinterResponse;

verus! {

#[derive(Debug, Clone, PartialEq, Eq, Default)]
pub struct DemurrageAmountResponse {
    pub demurrage_amount: u128,
}

#[derive(Debug, Clone, PartialEq, Eq, Default)]
pub struct SinkAddressResponse {
    pub sink_address: String,
}

#[derive(Debug, Clone, PartialEq, Eq, Default)]
pub struct TaxLevelResponse {
    pub tax_level: u128,
}

#[derive(Debug, Clone, PartialEq, Eq, Default)]
pub struct BalanceResponse {
    pub balance: u128,
}

#[derive(Debug, Clone, PartialEq, Eq)]
pub struct TokenInfoResponse {
    pub name: String,
    pub symbol: String,
    pub decimals: u32,
    pub total_supply: u128,
}

/// The answer to any one question.
#[derive(Debug, Clone, PartialEq, Eq)]
pub enum QueryResponse {
    Balance(BalanceResponse),
    TokenInfo(TokenInfoResponse),
    Minter(Option<MinterResponse>),
    DemurrageAmount(DemurrageAmountResponse),
    TaxLevel(TaxLevelResponse),
    SinkAccount(SinkAddressResponse),
}

} // verus!
