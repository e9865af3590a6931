//! Nominations: an escrowed amount, a title, and the votes cast so far.

use vstd::prelude::*;

verus! {

/// A count of votes.
pub type Votes = u16;

/// A candidate of a nomination with the votes cast for them.
#[derive(Debug, PartialEq)]
pub struct Nominator {
    pub slack_user: String,
    pub votes: Votes,
}

/// What a [`Nominator`] stands for.
pub struct Candidate {
    pub name: Seq<char>,
    pub votes: nat,
}

impl View for Nominator {
    type V = Candidate;

    open spec fn view(&self) -> Candidate {
        Candidate { name: self.slack_user@, votes: self.votes as nat }
    }
}

/// Some candidate of `cs` is called `name`.
pub open spec fn has_candidate(cs: Seq<Candidate>, name: Seq<char>) -> bool {
    exists|i: int| 0 <= i < cs.len() && (#[trigger] cs[i]).name == name
}

/// `i` is the position of the first candidate of `cs` called `name`.
pub open spec fn is_entry(cs: Seq<Candidate>, name: Seq<char>, i: int) -> bool {
    &&& 0 <= i < cs.len()
    &&& cs[i].name == name
    &&& forall|j: int| 0 <= j < i ==> (#[trigger] cs[j]).name != name
}

/// The position of the first candidate of `cs` called `name`.
pub open spec fn entry_of(cs: Seq<Candidate>, name: Seq<char>) -> int {
    choose|i: int| is_entry(cs, name, i)
}

/// The votes recorded for `name`: those of its first entry, and none without one.
pub open spec fn votes_for(cs: Seq<Candidate>, name: Seq<char>) -> nat {
    if has_candidate(cs, name) {
        cs[entry_of(cs, name)].votes
    } else {
        0
    }
}

/// The tally after one more vote for `name`: its entry counts one more, or a
/// new entry with one vote is added behind the others.
pub open spec fn cast(cs: Seq<Candidate>, name: Seq<char>) -> Seq<Candidate> {
    if has_candidate(cs, name) {
        let i = entry_of(cs, name);
        cs.update(i, Candidate { name: name, votes: cs[i].votes + 1 })
    } else {
        cs.push(Candidate { name: name, votes: 1 })
    }
}

/// Some candidate of `cs` has a vote.
pub open spec fn has_votes(cs: Seq<Candidate>) -> bool {
    exists|i: int| 0 <= i < cs.len() && (#[trigger] cs[i]).votes > 0
}

/// `i` is the position of the leader of `cs`: a candidate with a vote, with
/// more votes than everyone before and no fewer than everyone behind.
pub open spec fn is_leader(cs: Seq<Candidate>, i: int) -> bool {
    &&& 0 <= i < cs.len()
    &&& cs[i].votes > 0
    &&& forall|j: int| 0 <= j < i ==> (#[trigger] cs[j]).votes < cs[i].votes
    &&& forall|j: int| i < j < cs.len() ==> (#[trigger] cs[j]).votes <= cs[i].votes
}

/// The position of the leader of `cs`.
pub open spec fn leader(cs: Seq<Candidate>) -> int {
    choose|i: int| is_leader(cs, i)
}

/// A first entry is the only one.
pub proof fn lemma_entry_unique(cs: Seq<Candidate>, name: Seq<char>, i: int)
    requires
        is_entry(cs, name, i),
    ensures
        has_candidate(cs, name),
        entry_of(cs, name) == i,
{
    let c = entry_of(cs, name);
    assert(is_entry(cs, name, c));
    if c < i {
        assert(cs[c].name != name);
    } else if i < c {
        assert(cs[i].name != name);
    }
}

/// A tally has at most one leader.
pub proof fn lemma_leader_unique(cs: Seq<Candidate>, i: int)
    requires
        is_leader(cs, i),
    ensures
        has_votes(cs),
        leader(cs) == i,
{
    let c = leader(cs);
    assert(is_leader(cs, c));
    if c < i {
        assert(cs[c].votes < cs[i].votes);
        assert(cs[i].votes <= cs[c].votes);
    } else if i < c {
        assert(cs[i].votes < cs[c].votes);
        assert(cs[c].votes <= cs[i].votes);
    }
}

/// A nomination: the candidates in the order of their first vote, the title,
/// the amount held in escrow, and whether this is a nomination at all.
#[derive(Debug, PartialEq)]
pub struct Nomination {
    pub nominators: Vec<Nominator>,
    pub title: String,
    pub amount: u128,
    pub is_valid: bool,
}

/// What a [`Nomination`] stands for.
pub struct Proposal {
    pub candidates: Seq<Candidate>,
    pub title: Seq<char>,
    pub amount: nat,
    pub is_valid: bool,
}

impl Proposal {
    /// The value that stands for "no nomination".
    pub open spec fn none() -> Proposal {
        Proposal { candidates: Seq::empty(), title: Seq::empty(), amount: 0, is_valid: false }
    }

    /// A nomination that was just funded: no votes yet.
    pub open spec fn opened(title: Seq<char>, amount: nat) -> Proposal {
        Proposal { candidates: Seq::empty(), title: title, amount: amount, is_valid: true }
    }

    /// The nomination after one more vote for `name`.
    pub open spec fn vote(self, name: Seq<char>) -> Proposal {
        Proposal { candidates: cast(self.candidates, name), ..self }
    }
}

impl View for Nomination {
    type V = Proposal;

    open spec fn view(&self) -> Proposal {
        Proposal {
            candidates: Seq::new(self.nominators@.len(), |i: int| self.nominators@[i]@),
            title: self.title@,
            amount: self.amount as nat,
            is_valid: self.is_valid,
        }
    }
}

/// The outcome of a nomination: who won, under which title, and how much.
#[derive(Debug, PartialEq)]
pub struct Winner {
    pub winner: String,
    pub nomination: String,
    pub amount: u128,
}

impl Nomination {
    /// The value that stands for "no nomination".
    pub fn none() -> (r: Nomination)
        ensures
            r@ == Proposal::none(),
    {
        let r = Nomination { nominators: Vec::new(), title: String::new(), amount: 0, is_valid: false };
        assert(r@.candidates =~= Seq::empty());
        r
    }

    /// A nomination with `amount` in escrow and no votes yet.
    pub fn open(title: String, amount: u128) -> (r: Nomination)
        ensures
            r@ == Proposal::opened(title@, amount as nat),
    {
        let r = Nomination { nominators: Vec::new(), title: title, amount: amount, is_valid: true };
        assert(r@.candidates =~= Seq::empty());
        r
    }

    /// A copy of the nomination.
    pub fn duplicate(&self) -> (r: Nomination)
        ensures
            r@ == self@,
    {
        let mut nominators: Vec<Nominator> = Vec::new();
        let mut i: usize = 0;
        while i < self.nominators.len()
            invariant
                i <= self.nominators.len(),
                nominators@.len() == i,
                forall|j: int| 0 <= j < i ==> (#[trigger] nominators@[j])@ == self.nominators@[j]@,
            decreases self.nominators.len() - i,
        {
            nominators.push(
                Nominator {
                    slack_user: self.nominators[i].slack_user.clone(),
                    votes: self.nominators[i].votes,
                },
            );
            i += 1;
        }
        let r = Nomination {
            nominators: nominators,
            title: self.title.clone(),
            amount: self.amount,
            is_valid: self.is_valid,
        };
        assert(r@.candidates =~= self@.candidates);
        r
    }

    /// Where the first entry of `candidate` stands, if there is one.
    fn position(&self, candidate: &String) -> (r: Option<usize>)
        ensures
            match r {
                Some(i) => is_entry(self@.candidates, candidate@, i as int),
                None => !has_candidate(self@.candidates, candidate@),
            },
    {
        let mut i: usize = 0;
        while i < self.nominators.len()
            invariant
                i <= self.nominators.len(),
                forall|j: int| 0 <= j < i ==> (#[trigger] self@.candidates[j]).name != candidate@,
            decreases self.nominators.len() - i,
        {
            if self.nominators[i].slack_user == *candidate {
                return Some(i);
            }
            i += 1;
        }
        None
    }

    /// The votes recorded for `candidate`.
    pub fn votes_for(&self, candidate: &String) -> (r: Votes)
        ensures
            r == votes_for(self@.candidates, candidate@),
    {
        match self.position(candidate) {
            Some(i) => {
                proof {
                    lemma_entry_unique(self@.candidates, candidate@, i as int);
                }
                self.nominators[i].votes
            },
            None => 0,
        }
    }

    /// Records one more vote for `vote`.
    pub fn add_vote(&mut self, vote: String)
        requires
            votes_for(old(self)@.candidates, vote@) < Votes::MAX,
        ensures
            final(self)@ == old(self)@.vote(vote@),
    {
        match self.position(&vote) {
            Some(i) => {
                proof {
                    lemma_entry_unique(self@.candidates, vote@, i as int);
                }
                let votes = self.nominators[i].votes;
                self.nominators.set(i, Nominator { slack_user: vote, votes: votes + 1 });
            },
            None => {
                self.nominators.push(Nominator { slack_user: vote, votes: 1 });
            },
        }
        assert(self@.candidates =~= cast(old(self)@.candidates, vote@));
    }

    /// Where the leader stands: the first candidate with the most votes, if
    /// anyone has a vote.
    pub fn leader(&self) -> (r: Option<usize>)
        ensures
            match r {
                Some(i) => is_leader(self@.candidates, i as int),
                None => !has_votes(self@.candidates),
            },
    {
        let mut best: Option<usize> = None;
        let mut best_result: Votes = 0;
        let mut i: usize = 0;
        while i < self.nominators.len()
            invariant
                i <= self.nominators.len(),
                match best {
                    Some(b) => {
                        &&& b < i
                        &&& best_result > 0
                        &&& self@.candidates[b as int].votes == best_result
                        &&& forall|j: int| 0 <= j < b ==> (#[trigger] self@.candidates[j]).votes < best_result
                        &&& forall|j: int| b < j < i ==> (#[trigger] self@.candidates[j]).votes <= best_result
                    },
                    None => {
                        &&& best_result == 0
                        &&& forall|j: int| 0 <= j < i ==> (#[trigger] self@.candidates[j]).votes == 0
                    },
                },
            decreases self.nominators.len() - i,
        {
            if self.nominators[i].votes > best_result {
                best = Some(i);
                best_result = self.nominators[i].votes;
            }
            i += 1;
        }
        best
    }
}

} // verus!
