//! The contract: addresses, balances and nominations, and the operations on them.

use vstd::prelude::*;
use crate::error::TipsError;
use crate::ledger::Ledger;
use crate::nomination::{lemma_leader_unique, votes_for, Nomination, Votes, Winner};
use crate::registry::Registry;
use crate::settlement::Transfer;
use crate::snapshot::{copy_nominations, copy_rewards, copy_wallets, Snapshot};
use crate::state::State;

verus! {

/// The reward ledger of one operator.
pub struct Contract {
    rewards: Ledger,
    slack_wallets: Registry<String>,
    master_account_id: String,
    nominations: Registry<Nomination>,
}

impl View for Contract {
    type V = State;

    closed spec fn view(&self) -> State {
        State {
            master: self.master_account_id@,
            wallets: self.slack_wallets@,
            rewards: self.rewards@,
            nominations: self.nominations@,
        }
    }
}

impl Contract {
    /// A contract that `master_account_id` operates, with nothing in it.
    pub fn new(master_account_id: String) -> (contract: Contract)
        ensures
            contract@ == State::fresh(master_account_id@),
    {
        Contract {
            rewards: Ledger::new(),
            slack_wallets: Registry::new(),
            master_account_id: master_account_id,
            nominations: Registry::new(),
        }
    }

    /// The contract that a snapshot stands for.
    pub fn restore(snapshot: Snapshot) -> (contract: Contract)
        ensures
            contract@ == snapshot@,
    {
        Contract {
            rewards: Ledger::from_entries(snapshot.rewards),
            slack_wallets: Registry::from_entries(snapshot.slack_wallets),
            master_account_id: snapshot.master_account_id,
            nominations: Registry::from_entries(snapshot.nominations),
        }
    }

    /// Everything the contract holds, as plain lists.
    pub fn snapshot(&self) -> (snapshot: Snapshot)
        ensures
            snapshot@ == self@,
    {
        Snapshot {
            master_account_id: self.master_account_id.clone(),
            slack_wallets: copy_wallets(self.slack_wallets.entries()),
            rewards: copy_rewards(self.rewards.entries()),
            nominations: copy_nominations(self.nominations.entries()),
        }
    }

    /// The settlement address on file for `slack_account_id`. The empty
    /// address says that there is none.
    pub fn get_wallet(&self, slack_account_id: String) -> (wallet: String)
        ensures
            wallet@ == self@.wallet_of(slack_account_id@),
    {
        match self.slack_wallets.get(&slack_account_id) {
            Some(wallet) => wallet.clone(),
            None => String::new(),
        }
    }

    /// Puts `near_account_id` on file as the settlement address of
    /// `slack_account_id`, in place of any earlier one.
    pub fn associate_wallet_with_slack(&mut self, slack_account_id: String, near_account_id: String)
        ensures
            final(self)@ == old(self)@.associate(slack_account_id@, near_account_id@),
    {
        self.slack_wallets.insert(slack_account_id, near_account_id);
    }

    /// What `slack_account_id` has accrued and not withdrawn.
    pub fn get_rewards(&self, slack_account_id: String) -> (rewards: u128)
        ensures
            rewards == self@.balance_of(slack_account_id@),
    {
        self.rewards.balance_of(&slack_account_id)
    }

    /// Credits the payment that came with the call, `attached_deposit`, to
    /// `slack_account_id`.
    pub fn send_reward(&mut self, slack_account_id: String, attached_deposit: u128)
        requires
            old(self)@.balance_of(slack_account_id@) + attached_deposit <= u128::MAX,
        ensures
            final(self)@ == old(self)@.credit(slack_account_id@, attached_deposit as nat),
    {
        self.rewards.credit(slack_account_id, attached_deposit);
    }

    /// Starts the withdrawal of everything `slack_account_id` has accrued, on
    /// behalf of `predecessor_account_id`. Where the request is taken, the
    /// balance is debited at once and the transfer to carry out is handed
    /// back; its outcome is due to [`Contract::on_withdraw_rewards`].
    pub fn withdraw_rewards(&mut self, predecessor_account_id: &String, slack_account_id: String) -> (r:
        Result<Transfer, TipsError>)
        ensures
            final(self)@ == old(self)@.withdraw(predecessor_account_id@, slack_account_id@),
            match r {
                Ok(transfer) => {
                    &&& old(self)@.withdrawal_refusal(predecessor_account_id@, slack_account_id@) is None
                    &&& transfer.recipient_account_id@ == old(self)@.wallet_of(slack_account_id@)
                    &&& transfer.slack_account_id@ == slack_account_id@
                    &&& transfer.rewards == old(self)@.balance_of(slack_account_id@)
                },
                Err(e) => old(self)@.withdrawal_refusal(predecessor_account_id@, slack_account_id@)
                    == Some(e),
            },
    {
        if !(*predecessor_account_id == self.master_account_id) {
            return Err(TipsError::AccessDenied);
        }
        let recipient_account_id = self.get_wallet(slack_account_id.clone());
        if recipient_account_id.as_str().is_empty() {
            return Err(TipsError::UnassociatedAlias);
        }
        match self.rewards.debit_all(slack_account_id.clone()) {
            Ok(rewards) => Ok(
                Transfer {
                    recipient_account_id: recipient_account_id,
                    slack_account_id: slack_account_id,
                    rewards: rewards,
                },
            ),
            Err(e) => Err(e),
        }
    }

    /// Takes the outcome of a transfer of `rewards` for `slack_account_id`,
    /// reported by `predecessor_account_id`. Only the contract itself,
    /// `current_account_id`, may report one. A transfer that failed is put
    /// back on the balance. Hands back whether the transfer went through.
    pub fn on_withdraw_rewards(
        &mut self,
        predecessor_account_id: &String,
        current_account_id: &String,
        slack_account_id: String,
        rewards: u128,
        withdraw_succeeded: bool,
    ) -> (r: Result<bool, TipsError>)
        requires
            predecessor_account_id@ == current_account_id@ && !withdraw_succeeded ==> old(
                self,
            )@.balance_of(slack_account_id@) + rewards <= u128::MAX,
        ensures
            final(self)@ == old(self)@.settle(
                predecessor_account_id@,
                current_account_id@,
                slack_account_id@,
                rewards as nat,
                withdraw_succeeded,
            ),
            match r {
                Ok(succeeded) => State::outcome_refusal(
                    predecessor_account_id@,
                    current_account_id@,
                ) is None && succeeded == withdraw_succeeded,
                Err(e) => State::outcome_refusal(predecessor_account_id@, current_account_id@)
                    == Some(e),
            },
    {
        if !(*predecessor_account_id == *current_account_id) {
            return Err(TipsError::AccessDenied);
        }
        if !withdraw_succeeded {
            self.rewards.recredit(slack_account_id, rewards);
        }
        Ok(withdraw_succeeded)
    }

    /// Opens a nomination of `owner` called `title`, with the payment that
    /// came with the call, `attached_deposit`, in escrow.
    pub fn create_nomination(&mut self, owner: String, title: String, attached_deposit: u128) -> (r:
        Result<(), TipsError>)
        requires
            attached_deposit > 0,
        ensures
            final(self)@ == old(self)@.create(owner@, title@, attached_deposit as nat),
            match r {
                Ok(_) => old(self)@.creation_refusal(owner@) is None,
                Err(e) => old(self)@.creation_refusal(owner@) == Some(e),
            },
    {
        if self.nominations.contains_key(&owner) {
            return Err(TipsError::DuplicateProposal);
        }
        self.nominations.insert(owner, Nomination::open(title, attached_deposit));
        Ok(())
    }

    /// The open nomination of `owner`, or [`Nomination::none`].
    pub fn get_nomination(&self, owner: String) -> (nomination: Nomination)
        ensures
            nomination@ == self@.nomination_of(owner@),
    {
        match self.nominations.get(&owner) {
            Some(nomination) => nomination.duplicate(),
            None => Nomination::none(),
        }
    }

    /// Casts one vote for `vote` in the nomination of `owner`.
    pub fn add_vote(&mut self, owner: String, vote: String) -> (r: Result<(), TipsError>)
        requires
            votes_for(old(self)@.nomination_of(owner@).candidates, vote@) < Votes::MAX,
        ensures
            final(self)@ == old(self)@.vote(owner@, vote@),
            match r {
                Ok(_) => old(self)@.vote_refusal(owner@) is None,
                Err(e) => old(self)@.vote_refusal(owner@) == Some(e),
            },
    {
        let mut nomination = match self.nominations.get(&owner) {
            Some(nomination) => nomination.duplicate(),
            None => {
                return Err(TipsError::ProposalNotFound);
            },
        };
        nomination.add_vote(vote);
        self.nominations.insert(owner, nomination);
        Ok(())
    }

    /// Finishes the nomination of `owner`, on behalf of
    /// `predecessor_account_id`: the escrow goes to the balance of the leader,
    /// the nomination is removed, and the outcome is handed back.
    pub fn finish_nomination(&mut self, predecessor_account_id: &String, owner: String) -> (r: Result<
        Winner,
        TipsError,
    >)
        requires
            old(self)@.finish_refusal(predecessor_account_id@, owner@) is None ==> old(
                self,
            )@.balance_of(old(self)@.leader_of(owner@)) + old(self)@.nominations[owner@].amount
                <= u128::MAX,
        ensures
            final(self)@ == old(self)@.finish(predecessor_account_id@, owner@),
            match r {
                Ok(winner) => {
                    &&& old(self)@.finish_refusal(predecessor_account_id@, owner@) is None
                    &&& winner.winner@ == old(self)@.leader_of(owner@)
                    &&& winner.nomination@ == old(self)@.nominations[owner@].title
                    &&& winner.amount == old(self)@.nominations[owner@].amount
                },
                Err(e) => old(self)@.finish_refusal(predecessor_account_id@, owner@) == Some(e),
            },
    {
        if !(*predecessor_account_id == self.master_account_id) {
            return Err(TipsError::AccessDenied);
        }
        let winner = match self.nominations.get(&owner) {
            None => {
                return Err(TipsError::ProposalNotFound);
            },
            Some(nomination) => match nomination.leader() {
                None => {
                    return Err(TipsError::NoVotesCast);
                },
                Some(i) => {
                    proof {
                        lemma_leader_unique(nomination@.candidates, i as int);
                    }
                    Winner {
                        winner: nomination.nominators[i].slack_user.clone(),
                        nomination: nomination.title.clone(),
                        amount: nomination.amount,
                    }
                },
            },
        };
        self.rewards.credit(winner.winner.clone(), winner.amount);
        self.nominations.remove(&owner);
        Ok(winner)
    }

    /// Whether `predecessor_account_id` is the operator.
    pub fn assert_master_account(&self, predecessor_account_id: &String) -> (r: Result<(), TipsError>)
        ensures
            match r {
                Ok(_) => self@.operator_refusal(predecessor_account_id@) is None,
                Err(e) => self@.operator_refusal(predecessor_account_id@) == Some(e),
            },
    {
        if *predecessor_account_id == self.master_account_id {
            Ok(())
        } else {
            Err(TipsError::AccessDenied)
        }
    }
}

} // verus!
