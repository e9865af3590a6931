//! A reward ledger with asynchronous settlement and escrow-funded nominations.
//!
//! The crate keeps three alias-keyed stores (settlement addresses, accrued
//! rewards and open nominations) in one [`Contract`] value. Every operation
//! takes the identities and payments it depends on as plain arguments, so the
//! host around it only has to fetch them and to carry out the transfers that
//! the contract hands back.

pub mod contract;
pub mod error;
pub mod laws;
pub mod ledger;
pub mod nomination;
pub mod registry;
pub mod settlement;
pub mod snapshot;
pub mod state;

pub use contract::Contract;
pub use error::TipsError;
pub use ledger::Ledger;
pub use nomination::{Nomination, Nominator, Votes, Winner};
pub use registry::Registry;
pub use settlement::{is_promise_success, PromiseStatus, Transfer};
pub use snapshot::Snapshot;
