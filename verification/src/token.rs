//! The token ledger itself: metadata with a one-time initialization gate, the
//! balance ledger with its maintained total supply, and the allowance
//! registry.
//!
//! Every mutating operation validates in a fixed order — initialization,
//! authorization, amount and balance preconditions — and writes only after
//! all validations pass, so a call that returns an error leaves the ledger
//! exactly as it was. Well-formedness (`wf`) ties the recorded total supply
//! to the sum of all balances and is preserved by every operation.

use vstd::prelude::*;
use crate::Error;
use crate::auth::Authorizer;
use crate::balances;
use crate::allowances;
use crate::allowances::AllowanceKey;

verus! {

/// The immutable token identity, created once by `initialize`.
pub struct TokenMetadata {
    pub name: String,
    pub symbol: String,
    /// Decimal precision; at most 18, the common maximum across major token
    /// standards.
    pub decimals: u32,
}

/// A fungible-token ledger. `new` yields the uninitialized state; a single
/// successful `initialize` fixes the admin and the metadata forever.
pub struct TokenBDB {
    /// The one account allowed to mint. Absence means "not initialized".
    pub admin: Option<u64>,
    /// Present exactly when the ledger is initialized.
    pub metadata: Option<TokenMetadata>,
    /// Maintained invariant: equals the sum of all balances.
    pub total_supply: u64,
    /// Account identity -> balance; absent accounts hold zero.
    pub balances: Vec<(u64, u64)>,
    /// (owner, spender) -> spending limit; absent pairs hold zero.
    pub allowances: Vec<(AllowanceKey, u64)>,
}

impl TokenBDB {
    /// Whether `initialize` has succeeded on this ledger.
    pub open spec fn is_initialized(self) -> bool {
        self.admin is Some
    }

    /// The admin fixed at initialization.
    pub open spec fn spec_admin(self) -> u64 {
        self.admin->0
    }

    /// The balance of `account`; zero for accounts never written.
    pub open spec fn spec_balance(self, account: u64) -> u64 {
        balances::lookup(self.balances@, account)
    }

    /// The limit `owner` granted `spender`; zero when never approved.
    pub open spec fn spec_allowance(self, owner: u64, spender: u64) -> u64 {
        allowances::lookup(self.allowances@, (AllowanceKey { owner, spender }))
    }

    pub open spec fn spec_total_supply(self) -> u64 {
        self.total_supply
    }

    pub open spec fn spec_name(self) -> Seq<char> {
        self.metadata->0.name@
    }

    pub open spec fn spec_symbol(self) -> Seq<char> {
        self.metadata->0.symbol@
    }

    pub open spec fn spec_decimals(self) -> u32 {
        self.metadata->0.decimals
    }

    /// Well-formedness: one entry per account and per (owner, spender) pair,
    /// the recorded total supply equals the sum of all balances, admin and
    /// metadata are set together, the decimal precision never exceeds 18,
    /// and an uninitialized ledger holds no entries at all.
    pub open spec fn wf(self) -> bool {
        &&& balances::distinct_keys(self.balances@)
        &&& allowances::distinct_keys(self.allowances@)
        &&& self.total_supply == balances::sum_values(self.balances@)
        &&& (self.admin is Some <==> self.metadata is Some)
        &&& (self.metadata is Some ==> self.metadata->0.decimals <= 18)
        &&& (!(self.admin is Some) ==> self.balances@.len() == 0 && self.allowances@.len() == 0)
    }

    /// The empty, uninitialized ledger.
    pub fn new() -> (t: TokenBDB)
        ensures
            t.wf(),
            !t.is_initialized(),
            t.spec_total_supply() == 0,
            forall|a: u64| t.spec_balance(a) == 0,
            forall|o: u64, s: u64| t.spec_allowance(o, s) == 0,
    {
        TokenBDB {
            admin: None,
            metadata: None,
            total_supply: 0,
            balances: Vec::new(),
            allowances: Vec::new(),
        }
    }

    /// Fixes the admin and the token identity, exactly once.
    ///
    /// Fails with `AlreadyInitialized` on any call after the first success
    /// (a hard, permanent gate), and with `InvalidDecimals` when `decimals`
    /// exceeds 18. The one-time guard is examined before anything else, and
    /// a call that returns an error leaves the ledger unchanged.
    pub fn initialize(
        &mut self,
        admin: u64,
        name: String,
        symbol: String,
        decimals: u32,
    ) -> (r: Result<(), Error>)
        requires
            old(self).wf(),
        ensures
            final(self).wf(),
            old(self).is_initialized()
                ==> r == Err::<(), Error>(Error::AlreadyInitialized)
                    && *final(self) == *old(self),
            !old(self).is_initialized() && decimals > 18
                ==> r == Err::<(), Error>(Error::InvalidDecimals)
                    && *final(self) == *old(self),
            !old(self).is_initialized() && decimals <= 18
                ==> r == Ok::<(), Error>(())
                    && final(self).is_initialized()
                    && final(self).spec_admin() == admin
                    && final(self).spec_name() == name@
                    && final(self).spec_symbol() == symbol@
                    && final(self).spec_decimals() == decimals
                    && final(self).spec_total_supply() == 0,
            final(self).balances@ == old(self).balances@,
            final(self).allowances@ == old(self).allowances@,
            r is Ok <==> !old(self).is_initialized() && decimals <= 18,
    {
        if self.admin.is_some() {
            return Err(Error::AlreadyInitialized);
        }
        if decimals > 18 {
            return Err(Error::InvalidDecimals);
        }
        self.admin = Some(admin);
        self.metadata = Some(TokenMetadata { name, symbol, decimals });
        self.total_supply = 0;
        Ok(())
    }

    /// Creates `amount` new tokens on `to`'s balance. Only the admin may
    /// mint, and only a non-zero amount; the total supply grows by the same
    /// amount. The supply bound in `requires` keeps the ledger's unsigned
    /// arithmetic exact: growth past the integer width would be a fatal
    /// arithmetic error.
    pub fn mint(&mut self, to: u64, amount: u64, auth: &Authorizer)
        -> (r: Result<(), Error>)
        requires
            old(self).wf(),
            old(self).spec_total_supply() + amount <= u64::MAX,
        ensures
            final(self).wf(),
            !old(self).is_initialized()
                ==> r == Err::<(), Error>(Error::NotInitialized)
                    && *final(self) == *old(self),
            old(self).is_initialized() && !auth.authorizes(old(self).spec_admin())
                ==> r == Err::<(), Error>(Error::NotAuthorized)
                    && *final(self) == *old(self),
            old(self).is_initialized() && auth.authorizes(old(self).spec_admin()) && amount == 0
                ==> r == Err::<(), Error>(Error::InvalidAmount)
                    && *final(self) == *old(self),
            old(self).is_initialized() && auth.authorizes(old(self).spec_admin()) && amount > 0
                ==> r == Ok::<(), Error>(())
                    && final(self).spec_balance(to) == old(self).spec_balance(to) + amount
                    && final(self).spec_total_supply() == old(self).spec_total_supply() + amount,
            r is Ok ==> (forall|a: u64|
                a != to ==> final(self).spec_balance(a) == old(self).spec_balance(a)),
            r is Ok ==> final(self).allowances@ == old(self).allowances@,
            final(self).admin == old(self).admin,
            final(self).metadata == old(self).metadata,
    {
        let admin_id: u64 = match self.admin {
            Some(a) => a,
            None => { return Err(Error::NotInitialized) },
        };
        if !auth.authorize(admin_id) {
            return Err(Error::NotAuthorized);
        }
        if amount == 0 {
            return Err(Error::InvalidAmount);
        }
        let bal: u64 = balances::get_value(&self.balances, to);
        proof {
            balances::lemma_lookup_le_sum(self.balances@, to);
        }
        balances::set_value(&mut self.balances, to, bal + amount);
        self.total_supply = self.total_supply + amount;
        Ok(())
    }

    /// Destroys `amount` tokens from `from`'s balance (self-burn only: the
    /// acting party is `from`). Only a non-zero amount within the current
    /// balance may be burned; the total supply shrinks by the same amount.
    pub fn burn(&mut self, from: u64, amount: u64, auth: &Authorizer)
        -> (r: Result<(), Error>)
        requires
            old(self).wf(),
        ensures
            final(self).wf(),
            !old(self).is_initialized()
                ==> r == Err::<(), Error>(Error::NotInitialized)
                    && *final(self) == *old(self),
            old(self).is_initialized() && !auth.authorizes(from)
                ==> r == Err::<(), Error>(Error::NotAuthorized)
                    && *final(self) == *old(self),
            old(self).is_initialized() && auth.authorizes(from) && amount == 0
                ==> r == Err::<(), Error>(Error::InvalidAmount)
                    && *final(self) == *old(self),
            old(self).is_initialized() && auth.authorizes(from) && amount > 0
                && old(self).spec_balance(from) < amount
                ==> r == Err::<(), Error>(Error::InsufficientBalance)
                    && *final(self) == *old(self),
            old(self).is_initialized() && auth.authorizes(from) && amount > 0
                && old(self).spec_balance(from) >= amount
                ==> r == Ok::<(), Error>(())
                    && final(self).spec_balance(from) == old(self).spec_balance(from) - amount
                    && final(self).spec_total_supply() == old(self).spec_total_supply() - amount,
            r is Ok ==> (forall|a: u64|
                a != from ==> final(self).spec_balance(a) == old(self).spec_balance(a)),
            r is Ok ==> final(self).allowances@ == old(self).allowances@,
            final(self).admin == old(self).admin,
            final(self).metadata == old(self).metadata,
    {
        if self.admin.is_none() {
            return Err(Error::NotInitialized);
        }
        if !auth.authorize(from) {
            return Err(Error::NotAuthorized);
        }
        if amount == 0 {
            return Err(Error::InvalidAmount);
        }
        let bal: u64 = balances::get_value(&self.balances, from);
        if bal < amount {
            return Err(Error::InsufficientBalance);
        }
        proof {
            balances::lemma_lookup_le_sum(self.balances@, from);
        }
        balances::set_value(&mut self.balances, from, bal - amount);
        self.total_supply = self.total_supply - amount;
        Ok(())
    }

    /// Moves `amount` tokens from `from` (the acting party) to `to`. A
    /// self-transfer is rejected outright with `InvalidRecipient` — a
    /// deliberate design choice, not an optimization — and moving more than
    /// the current balance fails with `InsufficientBalance`. The total
    /// supply is unchanged.
    pub fn transfer(&mut self, from: u64, to: u64, amount: u64, auth: &Authorizer)
        -> (r: Result<(), Error>)
        requires
            old(self).wf(),
        ensures
            final(self).wf(),
            !old(self).is_initialized()
                ==> r == Err::<(), Error>(Error::NotInitialized)
                    && *final(self) == *old(self),
            old(self).is_initialized() && !auth.authorizes(from)
                ==> r == Err::<(), Error>(Error::NotAuthorized)
                    && *final(self) == *old(self),
            old(self).is_initialized() && auth.authorizes(from) && to == from
                ==> r == Err::<(), Error>(Error::InvalidRecipient)
                    && *final(self) == *old(self),
            old(self).is_initialized() && auth.authorizes(from) && to != from
                && old(self).spec_balance(from) < amount
                ==> r == Err::<(), Error>(Error::InsufficientBalance)
                    && *final(self) == *old(self),
            old(self).is_initialized() && auth.authorizes(from) && to != from
                && old(self).spec_balance(from) >= amount
                ==> r == Ok::<(), Error>(())
                    && final(self).spec_balance(from) == old(self).spec_balance(from) - amount
                    && final(self).spec_balance(to) == old(self).spec_balance(to) + amount,
            r is Ok ==> (forall|a: u64|
                a != from && a != to
                    ==> final(self).spec_balance(a) == old(self).spec_balance(a)),
            final(self).spec_total_supply() == old(self).spec_total_supply(),
            r is Ok ==> final(self).allowances@ == old(self).allowances@,
            final(self).admin == old(self).admin,
            final(self).metadata == old(self).metadata,
    {
        if self.admin.is_none() {
            return Err(Error::NotInitialized);
        }
        if !auth.authorize(from) {
            return Err(Error::NotAuthorized);
        }
        if to == from {
            return Err(Error::InvalidRecipient);
        }
        let bal_from: u64 = balances::get_value(&self.balances, from);
        if bal_from < amount {
            return Err(Error::InsufficientBalance);
        }
        balances::set_value(&mut self.balances, from, bal_from - amount);
        let bal_to: u64 = balances::get_value(&self.balances, to);
        proof {
            balances::lemma_lookup_le_sum(self.balances@, to);
        }
        balances::set_value(&mut self.balances, to, bal_to + amount);
        Ok(())
    }

    /// Sets the limit `spender` may move out of `owner`'s balance to exactly
    /// `amount` — an absolute overwrite, never additive. The acting party is
    /// `owner`; a zero amount is the way to revoke a grant.
    pub fn approve(&mut self, owner: u64, spender: u64, amount: u64, auth: &Authorizer)
        -> (r: Result<(), Error>)
        requires
            old(self).wf(),
        ensures
            final(self).wf(),
            !old(self).is_initialized()
                ==> r == Err::<(), Error>(Error::NotInitialized)
                    && *final(self) == *old(self),
            old(self).is_initialized() && !auth.authorizes(owner)
                ==> r == Err::<(), Error>(Error::NotAuthorized)
                    && *final(self) == *old(self),
            old(self).is_initialized() && auth.authorizes(owner)
                ==> r == Ok::<(), Error>(())
                    && final(self).spec_allowance(owner, spender) == amount,
            r is Ok ==> (forall|o2: u64, s2: u64|
                !(o2 == owner && s2 == spender)
                    ==> final(self).spec_allowance(o2, s2) == old(self).spec_allowance(o2, s2)),
            r is Ok ==> final(self).balances@ == old(self).balances@,
            final(self).spec_total_supply() == old(self).spec_total_supply(),
            final(self).admin == old(self).admin,
            final(self).metadata == old(self).metadata,
    {
        if self.admin.is_none() {
            return Err(Error::NotInitialized);
        }
        if !auth.authorize(owner) {
            return Err(Error::NotAuthorized);
        }
        allowances::set_value(&mut self.allowances, AllowanceKey { owner, spender }, amount);
        Ok(())
    }

    /// Moves `amount` tokens from `owner` to `to` on behalf of `spender`
    /// (the acting party), consuming exactly `amount` of the allowance
    /// `owner` granted `spender`. The allowance is checked before the
    /// balance, so the two failure kinds are deterministic. The total supply
    /// is unchanged.
    pub fn transfer_from(
        &mut self,
        spender: u64,
        owner: u64,
        to: u64,
        amount: u64,
        auth: &Authorizer,
    ) -> (r: Result<(), Error>)
        requires
            old(self).wf(),
        ensures
            final(self).wf(),
            !old(self).is_initialized()
                ==> r == Err::<(), Error>(Error::NotInitialized)
                    && *final(self) == *old(self),
            old(self).is_initialized() && !auth.authorizes(spender)
                ==> r == Err::<(), Error>(Error::NotAuthorized)
                    && *final(self) == *old(self),
            old(self).is_initialized() && auth.authorizes(spender)
                && old(self).spec_allowance(owner, spender) < amount
                ==> r == Err::<(), Error>(Error::InsufficientAllowance)
                    && *final(self) == *old(self),
            old(self).is_initialized() && auth.authorizes(spender)
                && old(self).spec_allowance(owner, spender) >= amount
                && old(self).spec_balance(owner) < amount
                ==> r == Err::<(), Error>(Error::InsufficientBalance)
                    && *final(self) == *old(self),
            old(self).is_initialized() && auth.authorizes(spender)
                && old(self).spec_allowance(owner, spender) >= amount
                && old(self).spec_balance(owner) >= amount
                ==> r == Ok::<(), Error>(())
                    && final(self).spec_allowance(owner, spender)
                        == old(self).spec_allowance(owner, spender) - amount,
            r is Ok ==> (forall|o2: u64, s2: u64|
                !(o2 == owner && s2 == spender)
                    ==> final(self).spec_allowance(o2, s2) == old(self).spec_allowance(o2, s2)),
            r is Ok && to == owner ==> (forall|a: u64|
                final(self).spec_balance(a) == old(self).spec_balance(a)),
            r is Ok && to != owner
                ==> final(self).spec_balance(owner) == old(self).spec_balance(owner) - amount
                    && final(self).spec_balance(to) == old(self).spec_balance(to) + amount
                    && (forall|a: u64|
                        a != owner && a != to
                            ==> final(self).spec_balance(a) == old(self).spec_balance(a)),
            final(self).spec_total_supply() == old(self).spec_total_supply(),
            final(self).admin == old(self).admin,
            final(self).metadata == old(self).metadata,
    {
        if self.admin.is_none() {
            return Err(Error::NotInitialized);
        }
        if !auth.authorize(spender) {
            return Err(Error::NotAuthorized);
        }
        let key = AllowanceKey { owner, spender };
        let granted: u64 = allowances::get_value(&self.allowances, key);
        if granted < amount {
            return Err(Error::InsufficientAllowance);
        }
        let bal_owner: u64 = balances::get_value(&self.balances, owner);
        if bal_owner < amount {
            return Err(Error::InsufficientBalance);
        }
        allowances::set_value(&mut self.allowances, key, granted - amount);
        balances::set_value(&mut self.balances, owner, bal_owner - amount);
        let bal_to: u64 = balances::get_value(&self.balances, to);
        proof {
            balances::lemma_lookup_le_sum(self.balances@, to);
        }
        balances::set_value(&mut self.balances, to, bal_to + amount);
        Ok(())
    }

    /// The balance of `account`: a pure read, zero for unknown accounts,
    /// never failing.
    pub fn balance(&self, account: u64) -> (r: u64)
        requires
            self.wf(),
        ensures
            r == self.spec_balance(account),
    {
        balances::get_value(&self.balances, account)
    }

    /// The current total supply: a pure read.
    pub fn total_supply(&self) -> (r: u64)
        ensures
            r == self.spec_total_supply(),
    {
        self.total_supply
    }

    /// The limit `owner` granted `spender`: a pure read, zero by default.
    pub fn allowance(&self, owner: u64, spender: u64) -> (r: u64)
        requires
            self.wf(),
        ensures
            r == self.spec_allowance(owner, spender),
    {
        allowances::get_value(&self.allowances, AllowanceKey { owner, spender })
    }

    /// The token name fixed at initialization.
    pub fn name(&self) -> (r: String)
        requires
            self.wf(),
            self.is_initialized(),
        ensures
            r@ == self.spec_name(),
    {
        match &self.metadata {
            Some(m) => m.name.clone(),
            None => String::new(),
        }
    }

    /// The token symbol fixed at initialization.
    pub fn symbol(&self) -> (r: String)
        requires
            self.wf(),
            self.is_initialized(),
        ensures
            r@ == self.spec_symbol(),
    {
        match &self.metadata {
            Some(m) => m.symbol.clone(),
            None => String::new(),
        }
    }

    /// The decimal precision fixed at initialization.
    pub fn decimals(&self) -> (r: u32)
        requires
            self.wf(),
            self.is_initialized(),
        ensures
            r == self.spec_decimals(),
    {
        match &self.metadata {
            Some(m) => m.decimals,
            None => 0,
        }
    }
}

} // verus!
