//! The authorization capability handed to every mutating ledger operation.
//!
//! The host environment, not the ledger, verifies signatures; the ledger only
//! asks "did the acting party authorize this invocation?". That question is
//! modelled as a value: an `Authorizer` answers it for each account, either
//! vouching for everyone or for a fixed list of accounts. A test injects
//! whichever answer it wants to exercise.

use vstd::prelude::*;

verus! {

/// Answers, for each account, whether the current invocation was authorized
/// by that account.
pub struct Authorizer {
    /// When set, every account is vouched for.
    pub all: bool,
    /// The accounts vouched for when `all` is not set.
    pub allowed: Vec<u64>,
}

impl Authorizer {
    /// Whether this authorizer vouches for `account`.
    pub open spec fn authorizes(self, account: u64) -> bool {
        self.all || self.allowed@.contains(account)
    }

    /// An authorizer that vouches for every account.
    pub fn allow_all() -> (a: Authorizer)
        ensures
            forall|account: u64| a.authorizes(account),
    {
        Authorizer { all: true, allowed: Vec::new() }
    }

    /// An authorizer that vouches for no account.
    pub fn deny_all() -> (a: Authorizer)
        ensures
            forall|account: u64| !a.authorizes(account),
    {
        Authorizer { all: false, allowed: Vec::new() }
    }

    /// An authorizer that vouches exactly for the listed accounts.
    pub fn allow_accounts(accounts: Vec<u64>) -> (a: Authorizer)
        ensures
            forall|account: u64| a.authorizes(account) == accounts@.contains(account),
    {
        Authorizer { all: false, allowed: accounts }
    }

    /// Asks whether `account` authorized the current invocation.
    pub fn authorize(&self, account: u64) -> (r: bool)
        ensures
            r == self.authorizes(account),
    {
        if self.all {
            return true;
        }
        let n: usize = self.allowed.len();
        let mut i: usize = 0;
        while i < n
            invariant
                n == self.allowed@.len(),
                0 <= i <= n,
                forall|j: int| 0 <= j < i ==> self.allowed@[j] != account,
            decreases n - i,
        {
            if self.allowed[i] == account {
                return true;
            }
            i = i + 1;
        }
        assert(!self.allowed@.contains(account));
        false
    }
}

} // verus!
