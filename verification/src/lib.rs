//! A fungible-token ledger: account balances, owner-granted spending
//! allowances (approve / transfer_from), and supply accounting
//! (mint / burn / transfer), guarded by a one-time initialization gate and
//! explicit authorization checks.
//!
//! The ledger is a verified state machine: every mutating operation first
//! checks initialization, then authorization, then the amount and balance
//! preconditions, and only then writes, so a failed call leaves the state
//! unchanged. The well-formedness predicate of the ledger ties the recorded
//! total supply to the sum of all balances, and every operation is proved to
//! preserve it.

use vstd::prelude::*;

pub mod auth;
pub mod balances;
pub mod allowances;
pub mod token;
pub mod laws;

verus! {

/// The closed set of errors a ledger operation can return. Every error is
/// surfaced verbatim to the invoker; no operation panics.
#[derive(Clone, Copy, Debug, PartialEq, Eq)]
pub enum Error {
    /// `initialize` was called on a ledger that already has an admin.
    AlreadyInitialized,
    /// A mutating operation was called before `initialize` succeeded.
    NotInitialized,
    /// `initialize` was called with a decimal precision above 18.
    InvalidDecimals,
    /// `mint` or `burn` was called with a zero amount.
    InvalidAmount,
    /// `transfer` was asked to move funds from an account to itself.
    InvalidRecipient,
    /// The debited account holds less than the requested amount.
    InsufficientBalance,
    /// The spender's allowance is less than the requested amount.
    InsufficientAllowance,
    /// The authorization collaborator did not vouch for the acting party.
    NotAuthorized,
}

} // verus!
