//! The ways in which the contract turns an operation down.

use vstd::prelude::*;

verus! {

/// Why an operation was refused. A refused operation leaves the state as it was.
#[derive(Clone, Copy, Debug, PartialEq, Eq, Structural)]
pub enum TipsError {
    /// The caller is not the operator, or a settlement outcome was reported by
    /// someone other than the contract itself.
    AccessDenied,
    /// No settlement address is on file for the alias.
    UnassociatedAlias,
    /// The alias has nothing to withdraw.
    InsufficientBalance,
    /// The owner already has an open nomination.
    DuplicateProposal,
    /// The owner has no open nomination.
    ProposalNotFound,
    /// No candidate of the nomination has a vote.
    NoVotesCast,
}

impl TipsError {
    /// The text of [`TipsError::message`].
    pub open spec fn text(self) -> Seq<char> {
        match self {
            TipsError::AccessDenied => "Access denied"@,
            TipsError::UnassociatedAlias => "Wrong slack account id"@,
            TipsError::InsufficientBalance => "Nothing to withdraw"@,
            TipsError::DuplicateProposal => "Nomination alredy exists for current slack user"@,
            TipsError::ProposalNotFound => "Nomination not found"@,
            TipsError::NoVotesCast => "No winner found"@,
        }
    }

    /// A line of text for the one who asked.
    pub fn message(&self) -> (r: String)
        ensures
            r@ == self.text(),
    {
        match self {
            TipsError::AccessDenied => "Access denied".to_string(),
            TipsError::UnassociatedAlias => "Wrong slack account id".to_string(),
            TipsError::InsufficientBalance => "Nothing to withdraw".to_string(),
            TipsError::DuplicateProposal => "Nomination alredy exists for current slack user".to_string(),
            TipsError::ProposalNotFound => "Nomination not found".to_string(),
            TipsError::NoVotesCast => "No winner found".to_string(),
        }
    }
}

} // verus!
