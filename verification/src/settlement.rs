//! The two ends of a settlement: the transfer that the contract asks for, and
//! the outcome that comes back.

use vstd::prelude::*;

verus! {

/// A transfer that the contract has debited and that the host is to carry out.
/// The alias and the amount travel with it, so that the outcome can be
/// reported for them.
#[derive(Debug, PartialEq)]
pub struct Transfer {
    /// The settlement address that receives the amount.
    pub recipient_account_id: String,
    /// The alias whose balance was debited.
    pub slack_account_id: String,
    /// The amount that was debited.
    pub rewards: u128,
}

/// What the host reports of a call that it was asked to make.
#[derive(Clone, Copy, Debug, PartialEq, Eq, Structural)]
pub enum PromiseStatus {
    NotReady,
    Successful,
    Failed,
}

/// Whether the one call that a settlement waits for went through.
pub fn is_promise_success(results: &Vec<PromiseStatus>) -> (r: bool)
    requires
        results@.len() == 1,
    ensures
        r == (results@[0] == PromiseStatus::Successful),
{
    match results[0] {
        PromiseStatus::Successful => true,
        _ => false,
    }
}

} // verus!
