//! Ledger-wide guarantees stated on their own, as proof functions.
//!
//! Per-call guarantees (which call fails with which error, and how each call
//! moves the balances, the allowances and the supply) live in the `ensures`
//! clauses of the operations in `token`. The lemmas here state the facts
//! that hold of every well-formed ledger value — and therefore, since every
//! operation both requires and ensures well-formedness, after every sequence
//! of calls.

use vstd::prelude::*;
use crate::balances;
use crate::token::TokenBDB;

verus! {

/// Supply conservation: in every well-formed ledger — in particular after
/// any sequence of mint, burn and transfer calls, each of which preserves
/// well-formedness — the recorded total supply equals the sum of all
/// account balances.
pub proof fn lemma_supply_conservation(t: TokenBDB)
    requires
        t.wf(),
    ensures
        t.spec_total_supply() == balances::sum_values(t.balances@),
{
}

/// Non-negativity: balances and allowances are unsigned by construction, so
/// no account balance and no spending allowance can ever fall below zero.
pub proof fn lemma_non_negativity(t: TokenBDB, a: u64, owner: u64, spender: u64)
    ensures
        t.spec_balance(a) >= 0,
        t.spec_allowance(owner, spender) >= 0,
{
}

/// No single balance can exceed the total supply: each balance is one
/// non-negative summand of the sum that the supply equals.
pub proof fn lemma_balance_le_supply(t: TokenBDB, a: u64)
    requires
        t.wf(),
    ensures
        t.spec_balance(a) <= t.spec_total_supply(),
{
    balances::lemma_lookup_le_sum(t.balances@, a);
}

/// Before initialization the ledger is empty: no supply, no balances, no
/// allowances. Together with the initialization gate this pins the two-state
/// machine down: everything a ledger holds was put there after the single
/// successful `initialize`.
pub proof fn lemma_uninitialized_is_empty(t: TokenBDB)
    requires
        t.wf(),
        !t.is_initialized(),
    ensures
        t.spec_total_supply() == 0,
        forall|a: u64| t.spec_balance(a) == 0,
        forall|o: u64, s: u64| t.spec_allowance(o, s) == 0,
{
    assert(t.balances@.len() == 0);
    assert(t.allowances@.len() == 0);
}

} // verus!
