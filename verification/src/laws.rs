//! What holds of the contract whatever is done with it, stated over
//! [`State`] and proved.

use vstd::prelude::*;
use crate::error::TipsError;
use crate::nomination::{
    cast, entry_of, has_candidate, has_votes, is_entry, is_leader, leader, lemma_entry_unique,
    lemma_leader_unique, votes_for, Candidate, Proposal,
};
use crate::state::State;

verus! {

/// The sum of `amounts`.
pub open spec fn total(amounts: Seq<nat>) -> nat
    decreases amounts.len(),
{
    if amounts.len() == 0 {
        0
    } else {
        total(amounts.drop_last()) + amounts.last()
    }
}

/// `s` after each of `amounts` was credited to `alias`, one after the other.
pub open spec fn credit_each(s: State, alias: Seq<char>, amounts: Seq<nat>) -> State
    decreases amounts.len(),
{
    if amounts.len() == 0 {
        s
    } else {
        credit_each(s, alias, amounts.drop_last()).credit(alias, amounts.last())
    }
}

/// Credits add up: after any run of credits to an alias, its balance has grown
/// by their sum.
pub proof fn law_credits_add_up(s: State, alias: Seq<char>, amounts: Seq<nat>)
    ensures
        credit_each(s, alias, amounts).balance_of(alias) == s.balance_of(alias) + total(amounts),
    decreases amounts.len(),
{
    if amounts.len() > 0 {
        law_credits_add_up(s, alias, amounts.drop_last());
    }
}

/// A credit of nothing leaves every balance as it was, and a credit to one
/// alias leaves the balance of every other alias as it was.
pub proof fn law_credit_reaches_one_balance(
    s: State,
    alias: Seq<char>,
    amount: nat,
    other: Seq<char>,
)
    ensures
        s.credit(alias, 0).balance_of(other) == s.balance_of(other),
        other != alias ==> s.credit(alias, amount).balance_of(other) == s.balance_of(other),
{
}

/// On a contract that nobody has used yet, the balance of an alias after a run
/// of credits is their sum.
pub proof fn law_first_credits_are_the_balance(
    master: Seq<char>,
    alias: Seq<char>,
    amounts: Seq<nat>,
)
    ensures
        credit_each(State::fresh(master), alias, amounts).balance_of(alias) == total(amounts),
{
    law_credits_add_up(State::fresh(master), alias, amounts);
}

/// An alias with nothing on its balance cannot withdraw: the request is
/// refused and the state stays as it was. Where the operator asks and an
/// address is on file, the reason given is the empty balance.
pub proof fn law_nothing_to_withdraw(s: State, caller: Seq<char>, alias: Seq<char>)
    requires
        s.balance_of(alias) == 0,
    ensures
        s.withdrawal_refusal(caller, alias) is Some,
        s.withdraw(caller, alias) == s,
        caller == s.master && s.wallet_of(alias).len() > 0 ==> s.withdrawal_refusal(caller, alias)
            == Some(TipsError::InsufficientBalance),
{
}

/// A withdrawal that was taken leaves nothing on the balance, before any
/// outcome is known, and touches no other balance.
pub proof fn law_withdrawal_debits_at_once(s: State, caller: Seq<char>, alias: Seq<char>)
    requires
        s.withdrawal_refusal(caller, alias) is None,
    ensures
        s.withdraw(caller, alias).balance_of(alias) == 0,
        forall|other: Seq<char>|
            other != alias ==> s.withdraw(caller, alias).balance_of(other) == s.balance_of(other),
        s.withdraw(caller, alias).withdrawal_refusal(caller, alias) == Some(
            TipsError::InsufficientBalance,
        ),
{
}

/// A transfer that failed is made good: once the contract has reported the
/// failure, the state is what it was before the withdrawal.
pub proof fn law_failed_transfer_is_restored(
    s: State,
    caller: Seq<char>,
    alias: Seq<char>,
    current: Seq<char>,
)
    requires
        s.withdrawal_refusal(caller, alias) is None,
    ensures
        s.withdraw(caller, alias).settle(current, current, alias, s.balance_of(alias), false)
            == s,
        s.withdraw(caller, alias).settle(
            current,
            current,
            alias,
            s.balance_of(alias),
            false,
        ).balance_of(alias) == s.balance_of(alias),
{
    let after = s.withdraw(caller, alias).settle(
        current,
        current,
        alias,
        s.balance_of(alias),
        false,
    );
    assert(after.rewards =~= s.rewards);
}

/// An outcome that anyone but the contract itself reports is refused, and the
/// state stays as it was.
pub proof fn law_forged_outcome_is_refused(
    s: State,
    caller: Seq<char>,
    current: Seq<char>,
    alias: Seq<char>,
    rewards: nat,
    succeeded: bool,
)
    requires
        caller != current,
    ensures
        State::outcome_refusal(caller, current) == Some(TipsError::AccessDenied),
        s.settle(caller, current, alias, rewards, succeeded) == s,
{
}

/// One thing that can be done with the contract.
pub enum Step {
    Associate { alias: Seq<char>, wallet: Seq<char> },
    Credit { alias: Seq<char>, amount: nat },
    Withdraw { caller: Seq<char>, alias: Seq<char> },
    Outcome { caller: Seq<char>, current: Seq<char>, alias: Seq<char>, rewards: nat, succeeded: bool },
    Create { owner: Seq<char>, title: Seq<char>, deposit: nat },
    Vote { owner: Seq<char>, candidate: Seq<char> },
    Finish { caller: Seq<char>, owner: Seq<char> },
}

/// `s` after `op`.
pub open spec fn step(s: State, op: Step) -> State {
    match op {
        Step::Associate { alias, wallet } => s.associate(alias, wallet),
        Step::Credit { alias, amount } => s.credit(alias, amount),
        Step::Withdraw { caller, alias } => s.withdraw(caller, alias),
        Step::Outcome { caller, current, alias, rewards, succeeded } => s.settle(
            caller,
            current,
            alias,
            rewards,
            succeeded,
        ),
        Step::Create { owner, title, deposit } => s.create(owner, title, deposit),
        Step::Vote { owner, candidate } => s.vote(owner, candidate),
        Step::Finish { caller, owner } => s.finish(caller, owner),
    }
}

/// `s` after each of `ops`, one after the other.
pub open spec fn run(s: State, ops: Seq<Step>) -> State
    decreases ops.len(),
{
    if ops.len() == 0 {
        s
    } else {
        run(step(s, ops.first()), ops.drop_first())
    }
}

/// `op`, done in `s`, puts something on the balance of `alias`: a credit, a
/// failed transfer that is put back, or the escrow of a nomination won.
pub open spec fn credits(s: State, op: Step, alias: Seq<char>) -> bool {
    match op {
        Step::Credit { alias: to, amount } => to == alias,
        Step::Outcome { caller, current, alias: to, rewards, succeeded } => to == alias
            && !succeeded && caller == current,
        Step::Finish { caller, owner } => s.finish_refusal(caller, owner) is None && s.leader_of(
            owner,
        ) == alias,
        _ => false,
    }
}

/// None of `ops`, done one after the other from `s`, puts anything on the
/// balance of `alias`.
pub open spec fn no_credit(s: State, ops: Seq<Step>, alias: Seq<char>) -> bool
    decreases ops.len(),
{
    ops.len() > 0 ==> !credits(s, ops.first(), alias) && no_credit(
        step(s, ops.first()),
        ops.drop_first(),
        alias,
    )
}

/// A balance grows by credits only.
pub proof fn law_balance_grows_by_credit_only(s: State, op: Step, alias: Seq<char>)
    requires
        !credits(s, op, alias),
    ensures
        step(s, op).balance_of(alias) <= s.balance_of(alias),
{
}

/// An empty balance stays empty as long as nothing is credited to it.
pub proof fn law_empty_balance_stays_empty(s: State, ops: Seq<Step>, alias: Seq<char>)
    requires
        s.balance_of(alias) == 0,
        no_credit(s, ops, alias),
    ensures
        run(s, ops).balance_of(alias) == 0,
    decreases ops.len(),
{
    if ops.len() > 0 {
        law_balance_grows_by_credit_only(s, ops.first(), alias);
        law_empty_balance_stays_empty(step(s, ops.first()), ops.drop_first(), alias);
    }
}

/// A transfer that went through is final: the report of success changes
/// nothing, and the balance stays at zero whatever is done afterwards, as long
/// as nothing is credited to it.
pub proof fn law_settled_transfer_is_final(
    s: State,
    caller: Seq<char>,
    alias: Seq<char>,
    current: Seq<char>,
    ops: Seq<Step>,
)
    requires
        s.withdrawal_refusal(caller, alias) is None,
        no_credit(
            s.withdraw(caller, alias).settle(current, current, alias, s.balance_of(alias), true),
            ops,
            alias,
        ),
    ensures
        s.withdraw(caller, alias).settle(current, current, alias, s.balance_of(alias), true)
            == s.withdraw(caller, alias),
        run(s.withdraw(caller, alias), ops).balance_of(alias) == 0,
{
    law_empty_balance_stays_empty(s.withdraw(caller, alias), ops, alias);
}

/// Below every candidate called `name` stands a first one.
proof fn lemma_entry_exists(cs: Seq<Candidate>, name: Seq<char>, i: int)
    requires
        0 <= i < cs.len(),
        cs[i].name == name,
    ensures
        is_entry(cs, name, entry_of(cs, name)),
    decreases i,
{
    if forall|j: int| 0 <= j < i ==> (#[trigger] cs[j]).name != name {
        lemma_entry_unique(cs, name, i);
    } else {
        let j = choose|j: int| 0 <= j < i && (#[trigger] cs[j]).name == name;
        lemma_entry_exists(cs, name, j);
    }
}

/// A vote counts once: the candidate voted for has one vote more, and every
/// other candidate has what they had.
pub proof fn law_vote_counts_once(cs: Seq<Candidate>, name: Seq<char>, other: Seq<char>)
    ensures
        votes_for(cast(cs, name), name) == votes_for(cs, name) + 1,
        other != name ==> votes_for(cast(cs, name), other) == votes_for(cs, other),
        has_candidate(cs, name) ==> cast(cs, name).len() == cs.len(),
        !has_candidate(cs, name) ==> cast(cs, name).len() == cs.len() + 1,
{
    let after = cast(cs, name);
    let at = if has_candidate(cs, name) { entry_of(cs, name) } else { cs.len() as int };
    if has_candidate(cs, name) {
        let i = choose|i: int| 0 <= i < cs.len() && (#[trigger] cs[i]).name == name;
        lemma_entry_exists(cs, name, i);
    }
    assert(is_entry(after, name, at)) by {
        assert forall|j: int| 0 <= j < at implies (#[trigger] after[j]).name != name by {
            assert(after[j] == cs[j]);
            if !has_candidate(cs, name) {
                assert(cs[j].name != name);
            }
        }
    }
    lemma_entry_unique(after, name, at);
    if other != name {
        if has_candidate(cs, other) {
            let i = choose|i: int| 0 <= i < cs.len() && (#[trigger] cs[i]).name == other;
            lemma_entry_exists(cs, other, i);
            let a = entry_of(cs, other);
            assert(after[a] == cs[a]);
            assert(is_entry(after, other, a)) by {
                assert forall|j: int| 0 <= j < a implies (#[trigger] after[j]).name != other by {
                    if j != at {
                        assert(after[j] == cs[j]);
                    }
                }
            }
            lemma_entry_unique(after, other, a);
        } else if has_candidate(after, other) {
            let b = choose|b: int| 0 <= b < after.len() && (#[trigger] after[b]).name == other;
            assert(b != at);
            assert(after[b] == cs[b]);
        }
    }
}

/// Among the first `n` candidates of `cs`, the position of the one that leads
/// them, or -1 where none of them has a vote.
spec fn leader_among(cs: Seq<Candidate>, n: int) -> int
    decreases n,
{
    if n <= 0 {
        -1
    } else {
        let before = leader_among(cs, n - 1);
        if before < 0 {
            if cs[n - 1].votes > 0 {
                n - 1
            } else {
                -1
            }
        } else if cs[n - 1].votes > cs[before].votes {
            n - 1
        } else {
            before
        }
    }
}

proof fn lemma_leader_among(cs: Seq<Candidate>, n: int)
    requires
        0 <= n <= cs.len(),
    ensures
        leader_among(cs, n) < 0 ==> forall|j: int| 0 <= j < n ==> (#[trigger] cs[j]).votes == 0,
        leader_among(cs, n) >= 0 ==> is_leader(cs.take(n), leader_among(cs, n)),
    decreases n,
{
    if n > 0 {
        lemma_leader_among(cs, n - 1);
        let before = leader_among(cs, n - 1);
        let now = leader_among(cs, n);
        if now >= 0 {
            assert forall|j: int| 0 <= j < now implies (#[trigger] cs.take(n)[j]).votes < cs.take(
                n,
            )[now].votes by {
                if before >= 0 {
                    assert(cs.take(n - 1)[before] == cs[before]);
                    if j < before {
                        assert(cs.take(n - 1)[j] == cs[j]);
                    } else if j > before {
                        assert(cs.take(n - 1)[j] == cs[j]);
                    }
                }
            }
            assert forall|j: int| now < j < n implies (#[trigger] cs.take(n)[j]).votes <= cs.take(
                n,
            )[now].votes by {
                if j < n - 1 {
                    assert(cs.take(n - 1)[j] == cs[j]);
                }
            }
        }
    }
}

/// Every tally with a vote in it has a leader, and only one: the first of
/// those with the most votes. A later candidate with as many votes does not
/// take the lead.
pub proof fn law_first_with_most_votes_leads(cs: Seq<Candidate>)
    requires
        has_votes(cs),
    ensures
        is_leader(cs, leader(cs)),
        forall|i: int| is_leader(cs, i) ==> i == leader(cs),
        forall|j: int|
            0 <= j < cs.len() && (#[trigger] cs[j]).votes == cs[leader(cs)].votes ==> leader(cs)
                <= j,
{
    lemma_leader_among(cs, cs.len() as int);
    assert(cs.take(cs.len() as int) =~= cs);
    let i = leader_among(cs, cs.len() as int);
    lemma_leader_unique(cs, i);
    assert forall|i: int| is_leader(cs, i) implies i == leader(cs) by {
        lemma_leader_unique(cs, i);
    }
}

/// A nomination without a vote cannot be finished: the request is refused,
/// and the nomination and its escrow stay as they were.
pub proof fn law_no_votes_no_winner(s: State, caller: Seq<char>, owner: Seq<char>)
    requires
        s.nominations.contains_key(owner),
        !has_votes(s.nominations[owner].candidates),
    ensures
        s.finish_refusal(caller, owner) is Some,
        caller == s.master ==> s.finish_refusal(caller, owner) == Some(TipsError::NoVotesCast),
        s.finish(caller, owner) == s,
        s.finish(caller, owner).nomination_of(owner) == s.nomination_of(owner),
{
}

/// An owner has one open nomination at most: after a request to open one,
/// taken or not, the next request of the same owner is refused and changes
/// nothing.
pub proof fn law_one_nomination_per_owner(
    s: State,
    owner: Seq<char>,
    title: Seq<char>,
    deposit: nat,
    next_title: Seq<char>,
    next_deposit: nat,
)
    ensures
        s.create(owner, title, deposit).creation_refusal(owner) == Some(
            TipsError::DuplicateProposal,
        ),
        s.create(owner, title, deposit).create(owner, next_title, next_deposit) == s.create(
            owner,
            title,
            deposit,
        ),
{
}

/// Finishing a nomination moves its escrow to the leader and nowhere else,
/// and the owner can open a new nomination afterwards.
pub proof fn law_finish_pays_the_leader(s: State, caller: Seq<char>, owner: Seq<char>)
    requires
        s.finish_refusal(caller, owner) is None,
    ensures
        s.finish(caller, owner).balance_of(s.leader_of(owner)) == s.balance_of(s.leader_of(owner))
            + s.nominations[owner].amount,
        forall|other: Seq<char>|
            other != s.leader_of(owner) ==> s.finish(caller, owner).balance_of(other)
                == s.balance_of(other),
        s.finish(caller, owner).nomination_of(owner) == Proposal::none(),
        s.finish(caller, owner).creation_refusal(owner) is None,
{
}

/// A balance shrinks by a withdrawal only, and then to zero.
pub proof fn law_balance_shrinks_by_withdrawal_only(s: State, op: Step, alias: Seq<char>)
    ensures
        step(s, op).balance_of(alias) < s.balance_of(alias) ==> step(s, op).balance_of(alias) == 0,
        step(s, op).balance_of(alias) < s.balance_of(alias) ==> (op matches Step::Withdraw {
            caller,
            alias: from,
        } && from == alias && s.withdrawal_refusal(caller, alias) is None),
{
}

/// The title and the escrow of a nomination stay what they were when it was
/// opened, for as long as it is open.
pub proof fn law_escrow_is_fixed(s: State, op: Step, owner: Seq<char>)
    requires
        s.nominations.contains_key(owner),
        step(s, op).nominations.contains_key(owner),
    ensures
        step(s, op).nominations[owner].title == s.nominations[owner].title,
        step(s, op).nominations[owner].amount == s.nominations[owner].amount,
        step(s, op).nominations[owner].is_valid == s.nominations[owner].is_valid,
{
}

/// The nomination was funded, each of its candidates has a vote, and none of
/// them is listed twice.
pub open spec fn well_kept(p: Proposal) -> bool {
    &&& p.is_valid
    &&& p.amount > 0
    &&& forall|i: int| 0 <= i < p.candidates.len() ==> (#[trigger] p.candidates[i]).votes >= 1
    &&& forall|i: int, j: int|
        0 <= i < j < p.candidates.len() ==> (#[trigger] p.candidates[i]).name
            != (#[trigger] p.candidates[j]).name
}

/// Every open nomination is well kept.
pub open spec fn sound(s: State) -> bool {
    forall|owner: Seq<char>| #[trigger]
        s.nominations.contains_key(owner) ==> well_kept(s.nominations[owner])
}

/// `op` comes with the payment that it needs: a nomination is opened with a
/// deposit.
pub open spec fn funded(op: Step) -> bool {
    op matches Step::Create { deposit, .. } ==> deposit > 0
}

/// A vote keeps a nomination well kept.
pub proof fn law_votes_keep_the_tally(p: Proposal, name: Seq<char>)
    requires
        well_kept(p),
    ensures
        well_kept(p.vote(name)),
{
    let cs = p.candidates;
    let after = cast(cs, name);
    if has_candidate(cs, name) {
        let i = choose|i: int| 0 <= i < cs.len() && (#[trigger] cs[i]).name == name;
        lemma_entry_exists(cs, name, i);
        let at = entry_of(cs, name);
        assert forall|i: int| 0 <= i < after.len() implies (#[trigger] after[i]).votes >= 1
            && after[i].name == cs[i].name by {
            if i != at {
                assert(after[i] == cs[i]);
            }
        }
        assert forall|i: int, j: int| 0 <= i < j < after.len() implies (#[trigger] after[i]).name
            != (#[trigger] after[j]).name by {
            assert(after[i].name == cs[i].name);
            assert(after[j].name == cs[j].name);
        }
    } else {
        assert forall|i: int| 0 <= i < after.len() implies (#[trigger] after[i]).votes >= 1 by {
            if i < cs.len() {
                assert(after[i] == cs[i]);
            }
        }
        assert forall|i: int, j: int| 0 <= i < j < after.len() implies (#[trigger] after[i]).name
            != (#[trigger] after[j]).name by {
            assert(after[i] == cs[i]);
            if j < cs.len() {
                assert(after[j] == cs[j]);
            }
        }
    }
}

/// A contract that nobody has used yet is sound, and whatever is done with a
/// sound contract leaves it sound.
pub proof fn law_steps_keep_sound(master: Seq<char>, s: State, op: Step)
    requires
        sound(s),
        funded(op),
    ensures
        sound(State::fresh(master)),
        sound(step(s, op)),
{
    let after = step(s, op);
    assert forall|owner: Seq<char>| #[trigger]
        after.nominations.contains_key(owner) implies well_kept(after.nominations[owner]) by {
        match op {
            Step::Vote { owner: voted, candidate } => {
                if s.nominations.contains_key(voted) {
                    law_votes_keep_the_tally(s.nominations[voted], candidate);
                }
                if owner != voted {
                    assert(s.nominations.contains_key(owner));
                }
            },
            Step::Create { owner: opened, title, deposit } => {
                if owner != opened {
                    assert(s.nominations.contains_key(owner));
                }
            },
            _ => {
                assert(s.nominations.contains_key(owner));
            },
        }
    }
}

/// In a well kept nomination, there is a winner as soon as there is a candidate.
pub proof fn law_any_candidate_has_a_vote(p: Proposal)
    requires
        well_kept(p),
    ensures
        has_votes(p.candidates) <==> p.candidates.len() > 0,
{
    if p.candidates.len() > 0 {
        assert(p.candidates[0].votes >= 1);
    }
}

} // verus!
