//! The ledger as a value: the token, the demurrage schedule, the balances and
//! the allowances.

use vstd::prelude::*;
use crate::allowances::{AllowanceResponse, Allowances};
use crate::balances::Balances;
use crate::error::ContractError;
use crate::state::{State, TokenInfo};

verus! {

/// Everything that the ledger keeps.
#[derive(Debug, Clone, PartialEq, Eq)]
pub struct Ledger {
    pub token_info: Option<TokenInfo>,
    pub state: Option<State>,
    pub balances: Balances,
    pub allowances: Allowances,
}

/// What a ledger holds, with its balances as a map.
pub struct LedgerView {
    pub token_info: Option<TokenInfo>,
    pub state: Option<State>,
    pub balances: Map<Seq<char>, u128>,
    pub allowances: Map<(Seq<char>, Seq<char>), AllowanceResponse>,
}

impl Ledger {
    /// What the ledger holds.
    pub open spec fn view(&self) -> LedgerView {
        LedgerView {
            token_info: self.token_info,
            state: self.state,
            balances: self.balances@,
            allowances: self.allowances@,
        }
    }

    /// The balances hold each account once, the allowances each pair of owner
    /// and spender once, and the schedule, where there is
    /// one, is well formed.
    pub open spec fn wf(&self) -> bool {
        &&& self.balances.wf()
        &&& self.allowances.wf()
        &&& self.state is Some ==> self.state->Some_0.wf()
    }

    /// A ledger that has not been set up.
    pub fn new() -> (r: Ledger)
        ensures
            r.wf(),
            r.token_info is None,
            r.state is None,
            r.balances@ == Map::<Seq<char>, u128>::empty(),
            r.allowances@ == Map::<(Seq<char>, Seq<char>), AllowanceResponse>::empty(),
    {
        Ledger {
            token_info: None,
            state: None,
            balances: Balances::new(),
            allowances: Allowances::new(),
        }
    }

    /// Reads the schedule. A ledger that has not been set up is
    /// `Uninitialized`.
    pub fn load_state(&self) -> (r: Result<State, ContractError>)
        ensures
            self.state is None ==> r == Err::<State, ContractError>(ContractError::Uninitialized),
            self.state is Some ==> r == Ok::<State, ContractError>(self.state->Some_0),
    {
        match &self.state {
            Some(s) => Ok(s.duplicate()),
            None => Err(ContractError::Uninitialized),
        }
    }

    /// Writes the schedule over the one that the ledger held, if any. Nothing
    /// else changes.
    pub fn save_state(&mut self, state: State)
        requires
            old(self).wf(),
            state.wf(),
        ensures
            final(self).wf(),
            final(self)@ == (LedgerView { state: Some(state), ..old(self)@ }),
    {
        self.state = Some(state);
    }

    /// A copy of the ledger.
    pub fn duplicate(&self) -> (r: Ledger)
        requires
            self.wf(),
        ensures
            r.wf(),
            r@ == self@,
    {
        let token_info = match &self.token_info {
            Some(info) => Some(info.duplicate()),
            None => None,
        };
        let state = match &self.state {
            Some(s) => Some(s.duplicate()),
            None => None,
        };
        Ledger {
            token_info,
            state,
            balances: self.balances.snapshot(),
            allowances: self.allowances.snapshot(),
        }
    }
}

} // verus!
