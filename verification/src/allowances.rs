//! The allowances of a ledger: what each owner lets each spender take, and
//! until when.

use vstd::prelude::*;
use crate::clock::Timestamp;
use crate::msg::BlockInfo;

verus! {

/// When an allowance ends.
#[derive(Debug, Clone, Copy, PartialEq, Eq)]
pub enum Expiration {
    /// It has ended once the block's height is at least this.
    AtHeight(u64),
    /// It has ended once the block's time is at least this.
    AtTime(Timestamp),
    /// It never ends.
    Never,
}

impl Expiration {
    /// Whether the allowance has ended in `block`.
    pub open spec fn expired(&self, block: BlockInfo) -> bool {
        match *self {
            Expiration::AtHeight(height) => block.height >= height,
            Expiration::AtTime(time) => block.time.secs >= time.secs,
            Expiration::Never => false,
        }
    }

    /// Whether the allowance has ended in `block`.
    pub fn is_expired(&self, block: &BlockInfo) -> (r: bool)
        ensures
            r == self.expired(*block),
    {
        match self {
            Expiration::AtHeight(height) => block.height >= *height,
            Expiration::AtTime(time) => block.time.secs >= time.secs,
            Expiration::Never => false,
        }
    }
}

/// An allowance: how much may still be taken, and until when.
#[derive(Debug, Clone, Copy, PartialEq, Eq)]
pub struct AllowanceResponse {
    pub allowance: u128,
    pub expires: Expiration,
}

/// What one owner lets one spender take.
#[derive(Debug, Clone, PartialEq, Eq)]
pub struct Grant {
    pub owner: String,
    pub spender: String,
    pub allowance: AllowanceResponse,
}

/// All allowances, each pair of owner and spender once.
#[derive(Debug, Clone, PartialEq, Eq)]
pub struct Allowances {
    entries: Vec<Grant>,
}

/// The pair of owner and spender that a grant is for.
pub open spec fn grant_key(grant: Grant) -> (Seq<char>, Seq<char>) {
    (grant.owner@, grant.spender@)
}

/// The map that a row of grants stands for; of two grants for one pair the
/// later counts.
pub open spec fn grants_map(entries: Seq<Grant>) -> Map<(Seq<char>, Seq<char>), AllowanceResponse>
    decreases entries.len(),
{
    if entries.len() == 0 {
        Map::empty()
    } else {
        grants_map(entries.drop_last()).insert(grant_key(entries.last()), entries.last().allowance)
    }
}

/// No pair of owner and spender stands in the row twice.
pub open spec fn grants_distinct(entries: Seq<Grant>) -> bool {
    forall|i: int, j: int|
        0 <= i < j < entries.len() ==> grant_key(entries[i]) != grant_key(entries[j])
}

/// The allowance of a pair that has none.
pub open spec fn no_allowance() -> AllowanceResponse {
    AllowanceResponse { allowance: 0, expires: Expiration::Never }
}

/// The allowance of a pair in `allowances`: nothing, and without end, where
/// it has no entry.
pub open spec fn allowance_in(
    allowances: Map<(Seq<char>, Seq<char>), AllowanceResponse>,
    owner: Seq<char>,
    spender: Seq<char>,
) -> AllowanceResponse {
    if allowances.dom().contains((owner, spender)) {
        allowances[(owner, spender)]
    } else {
        no_allowance()
    }
}

proof fn lemma_grants_hit(entries: Seq<Grant>, i: int)
    requires
        grants_distinct(entries),
        0 <= i < entries.len(),
    ensures
        grants_map(entries).dom().contains(grant_key(entries[i])),
        grants_map(entries)[grant_key(entries[i])] == entries[i].allowance,
    decreases entries.len(),
{
    if i < entries.len() - 1 {
        lemma_grants_hit(entries.drop_last(), i);
    }
}

proof fn lemma_grants_miss(entries: Seq<Grant>, key: (Seq<char>, Seq<char>))
    requires
        forall|i: int| 0 <= i < entries.len() ==> grant_key(entries[i]) != key,
    ensures
        !grants_map(entries).dom().contains(key),
    decreases entries.len(),
{
    if entries.len() > 0 {
        lemma_grants_miss(entries.drop_last(), key);
    }
}

proof fn lemma_grants_update(entries: Seq<Grant>, i: int, grant: Grant)
    requires
        grants_distinct(entries),
        0 <= i < entries.len(),
        grant_key(grant) == grant_key(entries[i]),
    ensures
        grants_distinct(entries.update(i, grant)),
        grants_map(entries.update(i, grant)) == grants_map(entries).insert(
            grant_key(grant),
            grant.allowance,
        ),
    decreases entries.len(),
{
    let updated = entries.update(i, grant);
    if i < entries.len() - 1 {
        lemma_grants_update(entries.drop_last(), i, grant);
        assert(updated.drop_last() == entries.drop_last().update(i, grant));
        assert(updated.last() == entries.last());
    } else {
        assert(updated.drop_last() == entries.drop_last());
    }
    assert(grants_map(updated) =~= grants_map(entries).insert(grant_key(grant), grant.allowance));
}

proof fn lemma_grants_push(entries: Seq<Grant>, grant: Grant)
    requires
        grants_distinct(entries),
        forall|i: int| 0 <= i < entries.len() ==> grant_key(entries[i]) != grant_key(grant),
    ensures
        grants_distinct(entries.push(grant)),
        grants_map(entries.push(grant)) == grants_map(entries).insert(
            grant_key(grant),
            grant.allowance,
        ),
{
    assert(entries.push(grant).drop_last() == entries);
}

proof fn lemma_grants_remove(entries: Seq<Grant>, i: int)
    requires
        grants_distinct(entries),
        0 <= i < entries.len(),
    ensures
        grants_distinct(entries.remove(i)),
        grants_map(entries.remove(i)) == grants_map(entries).remove(grant_key(entries[i])),
    decreases entries.len(),
{
    let removed = entries.remove(i);
    let key = grant_key(entries[i]);
    if i < entries.len() - 1 {
        lemma_grants_remove(entries.drop_last(), i);
        assert(removed.drop_last() == entries.drop_last().remove(i));
        assert(removed.last() == entries.last());
    } else {
        assert(removed == entries.drop_last());
        lemma_grants_miss(entries.drop_last(), key);
    }
    assert(grants_map(removed) =~= grants_map(entries).remove(key));
}

impl Allowances {
    /// The allowance of each pair that has an entry.
    pub closed spec fn view(&self) -> Map<(Seq<char>, Seq<char>), AllowanceResponse> {
        grants_map(self.entries@)
    }

    /// Each pair has at most one entry.
    pub closed spec fn wf(&self) -> bool {
        grants_distinct(self.entries@)
    }

    /// Allowances in which no pair has an entry.
    pub fn new() -> (r: Allowances)
        ensures
            r.wf(),
            r@ == Map::<(Seq<char>, Seq<char>), AllowanceResponse>::empty(),
    {
        Allowances { entries: Vec::new() }
    }

    fn find(&self, owner: &String, spender: &String) -> (r: Option<usize>)
        ensures
            match r {
                Some(i) => i < self.entries@.len() && grant_key(self.entries@[i as int]) == (
                    owner@,
                    spender@,
                ),
                None => forall|i: int|
                    0 <= i < self.entries@.len() ==> grant_key(self.entries@[i]) != (
                        owner@,
                        spender@,
                    ),
            },
    {
        let mut i: usize = 0;
        while i < self.entries.len()
            invariant
                i <= self.entries@.len(),
                forall|j: int| 0 <= j < i ==> grant_key(self.entries@[j]) != (owner@, spender@),
            decreases self.entries@.len() - i,
        {
            if self.entries[i].owner == *owner && self.entries[i].spender == *spender {
                return Some(i);
            }
            i = i + 1;
        }
        None
    }

    /// The entry of a pair, if it has one.
    pub fn get(&self, owner: &String, spender: &String) -> (r: Option<AllowanceResponse>)
        requires
            self.wf(),
        ensures
            r == (if self@.dom().contains((owner@, spender@)) {
                Some(self@[(owner@, spender@)])
            } else {
                None
            }),
    {
        match self.find(owner, spender) {
            Some(i) => {
                proof {
                    lemma_grants_hit(self.entries@, i as int);
                }
                Some(self.entries[i].allowance)
            },
            None => {
                proof {
                    lemma_grants_miss(self.entries@, (owner@, spender@));
                }
                None
            },
        }
    }

    /// Gives a pair the entry `allowance`, in place of the one it had.
    pub fn set(&mut self, owner: &String, spender: &String, allowance: AllowanceResponse)
        requires
            old(self).wf(),
        ensures
            final(self).wf(),
            final(self)@ == old(self)@.insert((owner@, spender@), allowance),
    {
        let grant = Grant { owner: owner.clone(), spender: spender.clone(), allowance };
        match self.find(owner, spender) {
            Some(i) => {
                proof {
                    lemma_grants_update(self.entries@, i as int, grant);
                }
                self.entries.set(i, grant);
            },
            None => {
                proof {
                    lemma_grants_push(self.entries@, grant);
                }
                self.entries.push(grant);
            },
        }
    }

    /// Takes the entry of a pair away, if it has one.
    pub fn remove(&mut self, owner: &String, spender: &String)
        requires
            old(self).wf(),
        ensures
            final(self).wf(),
            final(self)@ == old(self)@.remove((owner@, spender@)),
    {
        match self.find(owner, spender) {
            Some(i) => {
                proof {
                    lemma_grants_remove(self.entries@, i as int);
                }
                let _ = self.entries.remove(i);
            },
            None => {
                proof {
                    lemma_grants_miss(self.entries@, (owner@, spender@));
                    assert(self@ =~= self@.remove((owner@, spender@)));
                }
            },
        }
    }

    /// A copy with the same entries.
    pub fn snapshot(&self) -> (r: Allowances)
        requires
            self.wf(),
        ensures
            r.wf(),
            r@ == self@,
    {
        let mut entries: Vec<Grant> = Vec::new();
        let mut i: usize = 0;
        while i < self.entries.len()
            invariant
                i <= self.entries@.len(),
                entries@ == self.entries@.subrange(0, i as int),
            decreases self.entries@.len() - i,
        {
            let grant = Grant {
                owner: self.entries[i].owner.clone(),
                spender: self.entries[i].spender.clone(),
                allowance: self.entries[i].allowance,
            };
            entries.push(grant);
            assert(entries@ =~= self.entries@.subrange(0, i + 1));
            i = i + 1;
        }
        assert(entries@ =~= self.entries@);
        Allowances { entries }
    }

    /// The pairs that have an entry, each with its allowance.
    pub fn grants(&self) -> (r: Vec<Grant>)
        requires
            self.wf(),
        ensures
            grants_distinct(r@),
            grants_map(r@) == self@,
    {
        self.snapshot().entries
    }
}

} // verus!
