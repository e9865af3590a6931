//! The ledger: what each alias has accrued and not yet withdrawn.

use vstd::prelude::*;
use crate::error::TipsError;
use crate::registry::{entries_map, Registry};

verus! {

/// The balance of `alias` in `m`: an alias without an entry has nothing.
pub open spec fn balance(m: Map<Seq<char>, nat>, alias: Seq<char>) -> nat {
    if m.contains_key(alias) {
        m[alias]
    } else {
        0
    }
}

/// `m` after `amount` was added to the balance of `alias`.
pub open spec fn credited(m: Map<Seq<char>, nat>, alias: Seq<char>, amount: nat) -> Map<
    Seq<char>,
    nat,
> {
    m.insert(alias, balance(m, alias) + amount)
}

/// `m` after the whole balance of `alias` was taken out.
pub open spec fn cleared(m: Map<Seq<char>, nat>, alias: Seq<char>) -> Map<Seq<char>, nat> {
    m.insert(alias, 0)
}

/// The balances that a list of entries stands for.
pub open spec fn balances_of(entries: Seq<(String, u128)>) -> Map<Seq<char>, nat> {
    entries_map(entries).map_values(|b: u128| b as nat)
}

/// Accrued balances by alias.
pub struct Ledger {
    balances: Registry<u128>,
}

impl View for Ledger {
    type V = Map<Seq<char>, nat>;

    closed spec fn view(&self) -> Map<Seq<char>, nat> {
        self.balances@.map_values(|b: u128| b as nat)
    }
}

impl Ledger {
    /// A ledger without entries.
    pub fn new() -> (r: Ledger)
        ensures
            r@ == Map::<Seq<char>, nat>::empty(),
    {
        let r = Ledger { balances: Registry::new() };
        assert(r@ =~= Map::<Seq<char>, nat>::empty());
        r
    }

    /// The ledger that a list of entries stands for.
    pub fn from_entries(entries: Vec<(String, u128)>) -> (r: Ledger)
        ensures
            r@ == balances_of(entries@),
    {
        Ledger { balances: Registry::from_entries(entries) }
    }

    /// The entries of the ledger, in the order in which the aliases came.
    pub fn entries(&self) -> (r: &Vec<(String, u128)>)
        ensures
            balances_of(r@) == self@,
    {
        self.balances.entries()
    }

    /// The balance of `alias`.
    pub fn balance_of(&self, alias: &String) -> (r: u128)
        ensures
            r == balance(self@, alias@),
    {
        match self.balances.get(alias) {
            Some(b) => *b,
            None => 0,
        }
    }

    /// Adds `amount` to the balance of `alias`.
    pub fn credit(&mut self, alias: String, amount: u128)
        requires
            balance(old(self)@, alias@) + amount <= u128::MAX,
        ensures
            final(self)@ == credited(old(self)@, alias@, amount as nat),
    {
        let current = self.balance_of(&alias);
        self.balances.insert(alias, current + amount);
        assert(self@ =~= credited(old(self)@, alias@, amount as nat));
    }

    /// Takes the whole balance of `alias` out of the ledger and hands it back.
    /// An alias with nothing to take is refused.
    pub fn debit_all(&mut self, alias: String) -> (r: Result<u128, TipsError>)
        ensures
            match r {
                Ok(amount) => amount > 0 && amount == balance(old(self)@, alias@) && final(self)@
                    == cleared(old(self)@, alias@),
                Err(e) => e == TipsError::InsufficientBalance && balance(old(self)@, alias@) == 0
                    && final(self)@ == old(self)@,
            },
    {
        let current = self.balance_of(&alias);
        if current == 0 {
            return Err(TipsError::InsufficientBalance);
        }
        self.balances.insert(alias, 0);
        assert(self@ =~= cleared(old(self)@, alias@));
        Ok(current)
    }

    /// Puts back an amount that was taken out by [`Ledger::debit_all`]. The
    /// amount is added to whatever the alias has accrued since.
    pub fn recredit(&mut self, alias: String, amount: u128)
        requires
            balance(old(self)@, alias@) + amount <= u128::MAX,
        ensures
            final(self)@ == credited(old(self)@, alias@, amount as nat),
    {
        self.credit(alias, amount);
    }
}

} // verus!
