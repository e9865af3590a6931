//! The state of a contract as plain lists, for a host that stores it between calls.

use vstd::prelude::*;
use crate::ledger::balances_of;
use crate::nomination::Nomination;
use crate::registry::{entries_map, lemma_same_entries};
use crate::state::State;

verus! {

/// Everything a contract holds. In each list the first entry for an alias counts.
pub struct Snapshot {
    pub master_account_id: String,
    pub slack_wallets: Vec<(String, String)>,
    pub rewards: Vec<(String, u128)>,
    pub nominations: Vec<(String, Nomination)>,
}

impl View for Snapshot {
    type V = State;

    open spec fn view(&self) -> State {
        State {
            master: self.master_account_id@,
            wallets: entries_map(self.slack_wallets@),
            rewards: balances_of(self.rewards@),
            nominations: entries_map(self.nominations@),
        }
    }
}

/// A copy of a list of addresses.
pub fn copy_wallets(entries: &Vec<(String, String)>) -> (r: Vec<(String, String)>)
    ensures
        r@.len() == entries@.len(),
        forall|j: int|
            0 <= j < r@.len() ==> (#[trigger] r@[j]).0@ == entries@[j].0@ && r@[j].1@ == entries@[j].1@,
        entries_map(r@) == entries_map(entries@),
{
    let mut r: Vec<(String, String)> = Vec::new();
    let mut i: usize = 0;
    while i < entries.len()
        invariant
            i <= entries.len(),
            r@.len() == i,
            forall|j: int|
                0 <= j < i ==> (#[trigger] r@[j]).0@ == entries@[j].0@ && r@[j].1@ == entries@[j].1@,
        decreases entries.len() - i,
    {
        r.push((entries[i].0.clone(), entries[i].1.clone()));
        i += 1;
    }
    proof {
        lemma_same_entries(r@, entries@);
    }
    r
}

/// A copy of a list of balances.
pub fn copy_rewards(entries: &Vec<(String, u128)>) -> (r: Vec<(String, u128)>)
    ensures
        r@.len() == entries@.len(),
        forall|j: int|
            0 <= j < r@.len() ==> (#[trigger] r@[j]).0@ == entries@[j].0@ && r@[j].1@ == entries@[j].1@,
        balances_of(r@) == balances_of(entries@),
{
    let mut r: Vec<(String, u128)> = Vec::new();
    let mut i: usize = 0;
    while i < entries.len()
        invariant
            i <= entries.len(),
            r@.len() == i,
            forall|j: int|
                0 <= j < i ==> (#[trigger] r@[j]).0@ == entries@[j].0@ && r@[j].1@ == entries@[j].1@,
        decreases entries.len() - i,
    {
        r.push((entries[i].0.clone(), entries[i].1));
        i += 1;
    }
    proof {
        lemma_same_entries(r@, entries@);
    }
    r
}

/// A copy of a list of nominations.
pub fn copy_nominations(entries: &Vec<(String, Nomination)>) -> (r: Vec<(String, Nomination)>)
    ensures
        r@.len() == entries@.len(),
        forall|j: int|
            0 <= j < r@.len() ==> (#[trigger] r@[j]).0@ == entries@[j].0@ && r@[j].1@ == entries@[j].1@,
        entries_map(r@) == entries_map(entries@),
{
    let mut r: Vec<(String, Nomination)> = Vec::new();
    let mut i: usize = 0;
    while i < entries.len()
        invariant
            i <= entries.len(),
            r@.len() == i,
            forall|j: int|
                0 <= j < i ==> (#[trigger] r@[j]).0@ == entries@[j].0@ && r@[j].1@ == entries@[j].1@,
        decreases entries.len() - i,
    {
        r.push((entries[i].0.clone(), entries[i].1.duplicate()));
        i += 1;
    }
    proof {
        lemma_same_entries(r@, entries@);
    }
    r
}

} // verus!
