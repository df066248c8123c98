//! The errors of the ledger and of the demurrage engine.

use vstd::prelude::*;

verus! {

/// Failures of the basic bookkeeping.
#[derive(Debug, Clone, PartialEq, Eq)]
pub enum BasicError {
    /// A balance or an allowance is smaller than what is taken from it.
    Overflow,
    /// A failure that is told in words.
    GenericErr { msg: &'static str },
    /// A record that was asked for is not there.
    NotFound,
    /// A message could not be put into bytes.
    SerializeErr,
}

/// Everything that can make an operation on the ledger fail.
#[derive(Debug, Clone, PartialEq, Eq)]
pub enum ContractError {
    Std(BasicError),
    Unauthorized,
    CannotSetOwnAccount,
    InvalidZeroAmount,
    Expired,
    NoAllowance,
    CannotExceedCap,
    DuplicateInitialBalanceAddresses,
    /// A scaled product or sum does not fit in 128 bits.
    ArithmeticOverflow,
    /// The given time lies before the time up to which decay was applied.
    NonMonotonicTime,
    /// The demurrage factor is, or would become, zero or negative.
    DecayFactorNonPositive,
    /// The demurrage state was read before the ledger was set up.
    Uninitialized,
}

impl BasicError {
    /// The error that carries `msg`.
    pub fn generic_err(msg: &'static str) -> (r: BasicError)
        ensures
            r == (BasicError::GenericErr { msg }),
    {
        BasicError::GenericErr { msg }
    }
}

} // verus!
