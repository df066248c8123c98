//! The balances of a ledger: for each account that holds one, its amount.

use vstd::prelude::*;
use crate::error::{ContractError, BasicError};

verus! {

/// One account and what it holds.
#[derive(Debug, Clone, PartialEq, Eq)]
pub struct Account {
    pub address: String,
    pub amount: u128,
}

/// The amounts of all accounts, each account once.
#[derive(Debug, Clone, PartialEq, Eq)]
pub struct Balances {
    entries: Vec<Account>,
}

/// The map that a row of accounts stands for; of two entries for one address
/// the later counts.
pub open spec fn accounts_map(entries: Seq<Account>) -> Map<Seq<char>, u128>
    decreases entries.len(),
{
    if entries.len() == 0 {
        Map::empty()
    } else {
        accounts_map(entries.drop_last()).insert(entries.last().address@, entries.last().amount)
    }
}

/// No address stands in the row twice.
pub open spec fn accounts_distinct(entries: Seq<Account>) -> bool {
    forall|i: int, j: int|
        0 <= i < j < entries.len() ==> entries[i].address@ != entries[j].address@
}

/// What an account holds in `balances`: nothing where it has no entry.
pub open spec fn balance_in(balances: Map<Seq<char>, u128>, address: Seq<char>) -> u128 {
    if balances.dom().contains(address) {
        balances[address]
    } else {
        0
    }
}

/// The balances after `amount` is added to an account. A sum that does not
/// fit in 128 bits is an `ArithmeticOverflow`.
pub open spec fn credit_spec(balances: Map<Seq<char>, u128>, address: Seq<char>, amount: u128)
    -> Result<Map<Seq<char>, u128>, ContractError> {
    if balance_in(balances, address) + amount > u128::MAX {
        Err(ContractError::ArithmeticOverflow)
    } else {
        Ok(balances.insert(address, (balance_in(balances, address) + amount) as u128))
    }
}

/// The balances after `amount` is taken from an account. An account that
/// holds less fails with an overflow of the basic bookkeeping.
pub open spec fn debit_spec(balances: Map<Seq<char>, u128>, address: Seq<char>, amount: u128)
    -> Result<Map<Seq<char>, u128>, ContractError> {
    if balance_in(balances, address) < amount {
        Err(ContractError::Std(BasicError::Overflow))
    } else {
        Ok(balances.insert(address, (balance_in(balances, address) - amount) as u128))
    }
}

proof fn lemma_accounts_hit(entries: Seq<Account>, i: int)
    requires
        accounts_distinct(entries),
        0 <= i < entries.len(),
    ensures
        accounts_map(entries).dom().contains(entries[i].address@),
        accounts_map(entries)[entries[i].address@] == entries[i].amount,
    decreases entries.len(),
{
    if i < entries.len() - 1 {
        lemma_accounts_hit(entries.drop_last(), i);
    }
}

proof fn lemma_accounts_miss(entries: Seq<Account>, address: Seq<char>)
    requires
        forall|i: int| 0 <= i < entries.len() ==> entries[i].address@ != address,
    ensures
        !accounts_map(entries).dom().contains(address),
    decreases entries.len(),
{
    if entries.len() > 0 {
        lemma_accounts_miss(entries.drop_last(), address);
    }
}

proof fn lemma_accounts_update(entries: Seq<Account>, i: int, account: Account)
    requires
        accounts_distinct(entries),
        0 <= i < entries.len(),
        account.address@ == entries[i].address@,
    ensures
        accounts_distinct(entries.update(i, account)),
        accounts_map(entries.update(i, account)) == accounts_map(entries).insert(
            account.address@,
            account.amount,
        ),
    decreases entries.len(),
{
    let updated = entries.update(i, account);
    if i < entries.len() - 1 {
        lemma_accounts_update(entries.drop_last(), i, account);
        assert(updated.drop_last() == entries.drop_last().update(i, account));
        assert(updated.last() == entries.last());
    } else {
        assert(updated.drop_last() == entries.drop_last());
    }
    assert(accounts_map(updated) =~= accounts_map(entries).insert(
        account.address@,
        account.amount,
    ));
}

proof fn lemma_accounts_push(entries: Seq<Account>, account: Account)
    requires
        accounts_distinct(entries),
        forall|i: int| 0 <= i < entries.len() ==> entries[i].address@ != account.address@,
    ensures
        accounts_distinct(entries.push(account)),
        accounts_map(entries.push(account)) == accounts_map(entries).insert(
            account.address@,
            account.amount,
        ),
{
    assert(entries.push(account).drop_last() == entries);
}

impl Balances {
    /// The amount of each account that has an entry.
    pub closed spec fn view(&self) -> Map<Seq<char>, u128> {
        accounts_map(self.entries@)
    }

    /// Each account has at most one entry.
    pub closed spec fn wf(&self) -> bool {
        accounts_distinct(self.entries@)
    }

    /// Balances in which no account has an entry.
    pub fn new() -> (r: Balances)
        ensures
            r.wf(),
            r@ == Map::<Seq<char>, u128>::empty(),
    {
        Balances { entries: Vec::new() }
    }

    fn find(&self, address: &String) -> (r: Option<usize>)
        ensures
            match r {
                Some(i) => i < self.entries@.len() && self.entries@[i as int].address@
                    == address@,
                None => forall|i: int|
                    0 <= i < self.entries@.len() ==> self.entries@[i].address@ != address@,
            },
    {
        let mut i: usize = 0;
        while i < self.entries.len()
            invariant
                i <= self.entries@.len(),
                forall|j: int| 0 <= j < i ==> self.entries@[j].address@ != address@,
            decreases self.entries@.len() - i,
        {
            if self.entries[i].address == *address {
                return Some(i);
            }
            i = i + 1;
        }
        None
    }

    /// The entry of an account, if it has one.
    pub fn get(&self, address: &String) -> (r: Option<u128>)
        requires
            self.wf(),
        ensures
            r == (if self@.dom().contains(address@) {
                Some(self@[address@])
            } else {
                None
            }),
    {
        match self.find(address) {
            Some(i) => {
                proof {
                    lemma_accounts_hit(self.entries@, i as int);
                }
                Some(self.entries[i].amount)
            },
            None => {
                proof {
                    lemma_accounts_miss(self.entries@, address@);
                }
                None
            },
        }
    }

    /// What an account holds: nothing where it has no entry.
    pub fn balance(&self, address: &String) -> (r: u128)
        requires
            self.wf(),
        ensures
            r == balance_in(self@, address@),
    {
        match self.get(address) {
            Some(amount) => amount,
            None => 0,
        }
    }

    /// Gives an account the entry `amount`, in place of the one it had.
    pub fn set(&mut self, address: &String, amount: u128)
        requires
            old(self).wf(),
        ensures
            final(self).wf(),
            final(self)@ == old(self)@.insert(address@, amount),
    {
        let account = Account { address: address.clone(), amount };
        match self.find(address) {
            Some(i) => {
                proof {
                    lemma_accounts_update(self.entries@, i as int, account);
                }
                self.entries.set(i, account);
            },
            None => {
                proof {
                    lemma_accounts_push(self.entries@, account);
                }
                self.entries.push(account);
            },
        }
    }

    /// Adds `amount` to what an account holds. On an error nothing changes.
    pub fn credit(&mut self, address: &String, amount: u128) -> (r: Result<(), ContractError>)
        requires
            old(self).wf(),
        ensures
            final(self).wf(),
            match credit_spec(old(self)@, address@, amount) {
                Ok(next) => r is Ok && final(self)@ == next,
                Err(e) => r == Err::<(), ContractError>(e) && final(self)@ == old(self)@,
            },
    {
        match self.balance(address).checked_add(amount) {
            Some(sum) => {
                self.set(address, sum);
                Ok(())
            },
            None => Err(ContractError::ArithmeticOverflow),
        }
    }

    /// Takes `amount` from what an account holds. On an error nothing changes.
    pub fn debit(&mut self, address: &String, amount: u128) -> (r: Result<(), ContractError>)
        requires
            old(self).wf(),
        ensures
            final(self).wf(),
            match debit_spec(old(self)@, address@, amount) {
                Ok(next) => r is Ok && final(self)@ == next,
                Err(e) => r == Err::<(), ContractError>(e) && final(self)@ == old(self)@,
            },
    {
        match self.balance(address).checked_sub(amount) {
            Some(rest) => {
                self.set(address, rest);
                Ok(())
            },
            None => Err(ContractError::Std(BasicError::Overflow)),
        }
    }

    /// A copy with the same entries.
    pub fn snapshot(&self) -> (r: Balances)
        requires
            self.wf(),
        ensures
            r.wf(),
            r@ == self@,
    {
        let mut entries: Vec<Account> = Vec::new();
        let mut i: usize = 0;
        while i < self.entries.len()
            invariant
                i <= self.entries@.len(),
                entries@ == self.entries@.subrange(0, i as int),
            decreases self.entries@.len() - i,
        {
            let account = Account {
                address: self.entries[i].address.clone(),
                amount: self.entries[i].amount,
            };
            entries.push(account);
            assert(entries@ =~= self.entries@.subrange(0, i + 1));
            i = i + 1;
        }
        assert(entries@ =~= self.entries@);
        Balances { entries }
    }

    /// The accounts that have an entry, each with its amount.
    pub fn accounts(&self) -> (r: Vec<Account>)
        requires
            self.wf(),
        ensures
            accounts_distinct(r@),
            accounts_map(r@) == self@,
    {
        self.snapshot().entries
    }
}

} // verus!
