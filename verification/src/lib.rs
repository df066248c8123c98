//! A token ledger with demurrage: balances are worth less with every minute
//! that passes, by a configurable tax level, and what decays is handed to a
//! sink account whenever a period rolls over.
//!
//! The arithmetic is fixed point on `u128`, and every step of it is checked:
//! a value that does not fit is an error, never a wrapped number.

pub mod allowances;
pub mod balances;
pub mod clock;
pub mod contract;
pub mod engine;
pub mod error;
pub mod ledger;
pub mod math;
pub mod msg;
pub mod query;
pub mod receiver;
pub mod state;
