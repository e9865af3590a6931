//! The state of the contract as a mathematical value, and what each operation
//! makes of it.

use vstd::prelude::*;
use crate::error::TipsError;
use crate::ledger::{balance, cleared, credited};
use crate::nomination::{has_votes, leader, Proposal};

verus! {

/// What a [`crate::contract::Contract`] stands for.
pub struct State {
    /// The operator.
    pub master: Seq<char>,
    /// Settlement addresses by alias.
    pub wallets: Map<Seq<char>, Seq<char>>,
    /// Accrued balances by alias.
    pub rewards: Map<Seq<char>, nat>,
    /// Open nominations by owner.
    pub nominations: Map<Seq<char>, Proposal>,
}

impl State {
    /// The state of a contract that `master` operates and that nobody has used yet.
    pub open spec fn fresh(master: Seq<char>) -> State {
        State {
            master: master,
            wallets: Map::empty(),
            rewards: Map::empty(),
            nominations: Map::empty(),
        }
    }

    /// The settlement address of `alias`; the empty address stands for "none".
    pub open spec fn wallet_of(self, alias: Seq<char>) -> Seq<char> {
        if self.wallets.contains_key(alias) {
            self.wallets[alias]
        } else {
            Seq::empty()
        }
    }

    /// What `alias` has accrued and not withdrawn.
    pub open spec fn balance_of(self, alias: Seq<char>) -> nat {
        balance(self.rewards, alias)
    }

    /// The open nomination of `owner`, or [`Proposal::none`].
    pub open spec fn nomination_of(self, owner: Seq<char>) -> Proposal {
        if self.nominations.contains_key(owner) {
            self.nominations[owner]
        } else {
            Proposal::none()
        }
    }

    /// Why `caller` may not act as the operator, if so.
    pub open spec fn operator_refusal(self, caller: Seq<char>) -> Option<TipsError> {
        if caller != self.master {
            Some(TipsError::AccessDenied)
        } else {
            None
        }
    }

    /// The state after `wallet` was put on file for `alias`.
    pub open spec fn associate(self, alias: Seq<char>, wallet: Seq<char>) -> State {
        State { wallets: self.wallets.insert(alias, wallet), ..self }
    }

    /// The state after `amount` was credited to `alias`.
    pub open spec fn credit(self, alias: Seq<char>, amount: nat) -> State {
        State { rewards: credited(self.rewards, alias, amount), ..self }
    }

    /// Why `caller` may not withdraw the balance of `alias`, if so. The checks
    /// come in this order: the caller, the address, the balance.
    pub open spec fn withdrawal_refusal(self, caller: Seq<char>, alias: Seq<char>) -> Option<
        TipsError,
    > {
        if caller != self.master {
            Some(TipsError::AccessDenied)
        } else if self.wallet_of(alias).len() == 0 {
            Some(TipsError::UnassociatedAlias)
        } else if self.balance_of(alias) == 0 {
            Some(TipsError::InsufficientBalance)
        } else {
            None
        }
    }

    /// The state after `caller` asked to withdraw the balance of `alias`: the
    /// balance is gone where the request was taken, and nothing has changed
    /// where it was refused.
    pub open spec fn withdraw(self, caller: Seq<char>, alias: Seq<char>) -> State {
        if self.withdrawal_refusal(caller, alias) is None {
            State { rewards: cleared(self.rewards, alias), ..self }
        } else {
            self
        }
    }

    /// Why an outcome reported by `caller` is not taken, if so: only the
    /// contract itself, `current`, may report one.
    pub open spec fn outcome_refusal(caller: Seq<char>, current: Seq<char>) -> Option<TipsError> {
        if caller != current {
            Some(TipsError::AccessDenied)
        } else {
            None
        }
    }

    /// The state after `caller` reported the outcome of a transfer of
    /// `rewards` for `alias`: a failed transfer is put back on the balance.
    pub open spec fn settle(
        self,
        caller: Seq<char>,
        current: Seq<char>,
        alias: Seq<char>,
        rewards: nat,
        succeeded: bool,
    ) -> State {
        if State::outcome_refusal(caller, current) is None && !succeeded {
            self.credit(alias, rewards)
        } else {
            self
        }
    }

    /// Why `owner` may not open a nomination, if so.
    pub open spec fn creation_refusal(self, owner: Seq<char>) -> Option<TipsError> {
        if self.nominations.contains_key(owner) {
            Some(TipsError::DuplicateProposal)
        } else {
            None
        }
    }

    /// The state after `owner` asked to open a nomination called `title` with
    /// `deposit` in escrow.
    pub open spec fn create(self, owner: Seq<char>, title: Seq<char>, deposit: nat) -> State {
        if self.creation_refusal(owner) is None {
            State {
                nominations: self.nominations.insert(owner, Proposal::opened(title, deposit)),
                ..self
            }
        } else {
            self
        }
    }

    /// Why no vote can be cast in the nomination of `owner`, if so.
    pub open spec fn vote_refusal(self, owner: Seq<char>) -> Option<TipsError> {
        if !self.nominations.contains_key(owner) {
            Some(TipsError::ProposalNotFound)
        } else {
            None
        }
    }

    /// The state after a vote for `candidate` was cast in the nomination of `owner`.
    pub open spec fn vote(self, owner: Seq<char>, candidate: Seq<char>) -> State {
        if self.vote_refusal(owner) is None {
            State {
                nominations: self.nominations.insert(
                    owner,
                    self.nominations[owner].vote(candidate),
                ),
                ..self
            }
        } else {
            self
        }
    }

    /// Why `caller` may not finish the nomination of `owner`, if so. The
    /// checks come in this order: the caller, the nomination, the votes.
    pub open spec fn finish_refusal(self, caller: Seq<char>, owner: Seq<char>) -> Option<
        TipsError,
    > {
        if caller != self.master {
            Some(TipsError::AccessDenied)
        } else if !self.nominations.contains_key(owner) {
            Some(TipsError::ProposalNotFound)
        } else if !has_votes(self.nominations[owner].candidates) {
            Some(TipsError::NoVotesCast)
        } else {
            None
        }
    }

    /// Who leads the nomination of `owner`.
    pub open spec fn leader_of(self, owner: Seq<char>) -> Seq<char> {
        let candidates = self.nominations[owner].candidates;
        candidates[leader(candidates)].name
    }

    /// The state after `caller` asked to finish the nomination of `owner`:
    /// where the request was taken, the escrow is on the leader's balance and
    /// the nomination is gone.
    pub open spec fn finish(self, caller: Seq<char>, owner: Seq<char>) -> State {
        if self.finish_refusal(caller, owner) is None {
            State {
                rewards: credited(
                    self.rewards,
                    self.leader_of(owner),
                    self.nominations[owner].amount,
                ),
                nominations: self.nominations.remove(owner),
                ..self
            }
        } else {
            self
        }
    }
}

} // verus!
