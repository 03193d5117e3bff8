//! The balance ledger's backing store: an association list from account
//! identity to an unsigned amount. Absent keys read as zero, matching the
//! lazy-creation discipline of the persistent store (an entry is created on
//! first non-zero write and is never physically deleted; zero is the
//! tombstone state). The list keeps at most one entry per account, and the
//! sum of all stored amounts is the quantity the token's total supply is
//! proved equal to.

use vstd::prelude::*;

verus! {

/// No account appears twice among the entries.
pub open spec fn distinct_keys(s: Seq<(u64, u64)>) -> bool {
    forall|i: int, j: int| 0 <= i < j < s.len() ==> (#[trigger] s[i]).0 != (#[trigger] s[j]).0
}

/// The amount recorded for `key`, zero when no entry carries it.
pub open spec fn lookup(s: Seq<(u64, u64)>, key: u64) -> u64
    decreases s.len(),
{
    if s.len() == 0 {
        0u64
    } else if s.last().0 == key {
        s.last().1
    } else {
        lookup(s.drop_last(), key)
    }
}

/// The sum of all recorded amounts, as a mathematical integer.
pub open spec fn sum_values(s: Seq<(u64, u64)>) -> int
    decreases s.len(),
{
    if s.len() == 0 {
        0
    } else {
        sum_values(s.drop_last()) + s.last().1
    }
}

pub proof fn lemma_sum_nonneg(s: Seq<(u64, u64)>)
    ensures
        sum_values(s) >= 0,
    decreases s.len(),
{
    if s.len() > 0 {
        lemma_sum_nonneg(s.drop_last());
    }
}

/// Dropping the last entry keeps the keys distinct.
pub proof fn lemma_distinct_drop_last(s: Seq<(u64, u64)>)
    requires
        distinct_keys(s),
        s.len() > 0,
    ensures
        distinct_keys(s.drop_last()),
{
    assert forall|i: int, j: int|
        0 <= i < j < s.drop_last().len() implies (#[trigger] s.drop_last()[i]).0 != (#[trigger] s
        .drop_last()[j]).0 by {
        assert(s.drop_last()[i] == s[i]);
        assert(s.drop_last()[j] == s[j]);
    }
}

/// Each single entry's amount is bounded by the sum of all of them.
pub proof fn lemma_lookup_le_sum(s: Seq<(u64, u64)>, key: u64)
    ensures
        lookup(s, key) <= sum_values(s),
    decreases s.len(),
{
    if s.len() > 0 {
        lemma_sum_nonneg(s.drop_last());
        if s.last().0 != key {
            lemma_lookup_le_sum(s.drop_last(), key);
        }
    }
}

/// When the keys are distinct, the entry at any index carrying `key` gives
/// the looked-up amount.
pub proof fn lemma_lookup_at(s: Seq<(u64, u64)>, i: int, key: u64)
    requires
        distinct_keys(s),
        0 <= i < s.len(),
        s[i].0 == key,
    ensures
        lookup(s, key) == s[i].1,
    decreases s.len(),
{
    if i == s.len() - 1 {
        assert(s.last() == s[i]);
    } else {
        assert(s.last().0 != key);
        lemma_distinct_drop_last(s);
        assert(s.drop_last()[i] == s[i]);
        lemma_lookup_at(s.drop_last(), i, key);
    }
}

/// A key that no entry carries looks up to zero.
pub proof fn lemma_lookup_absent(s: Seq<(u64, u64)>, key: u64)
    requires
        forall|j: int| 0 <= j < s.len() ==> (#[trigger] s[j]).0 != key,
    ensures
        lookup(s, key) == 0,
    decreases s.len(),
{
    if s.len() > 0 {
        assert(s.last() == s[s.len() - 1]);
        assert(forall|j: int|
            0 <= j < s.drop_last().len() ==> (#[trigger] s.drop_last()[j]) == s[j]);
        lemma_lookup_absent(s.drop_last(), key);
    }
}

/// Overwriting the entry at index `i` (which carries `key`) changes exactly
/// that key's amount, keeps the keys distinct, and moves the sum by the
/// difference between the new and the old amount.
pub proof fn lemma_update_entry(s: Seq<(u64, u64)>, i: int, key: u64, value: u64)
    requires
        distinct_keys(s),
        0 <= i < s.len(),
        s[i].0 == key,
    ensures
        distinct_keys(s.update(i, (key, value))),
        forall|k2: u64|
            lookup(s.update(i, (key, value)), k2) == (if k2 == key {
                value
            } else {
                lookup(s, k2)
            }),
        sum_values(s.update(i, (key, value))) == sum_values(s) - s[i].1 + value,
{
    let t = s.update(i, (key, value));
    assert forall|a: int, b: int| 0 <= a < b < t.len() implies (#[trigger] t[a]).0 != (
    #[trigger] t[b]).0 by {
        assert(s[a].0 != s[b].0);
    }
    assert forall|k2: u64|
        lookup(t, k2) == (if k2 == key {
            value
        } else {
            lookup(s, k2)
        }) by {
        lemma_lookup_update(s, i, key, value, k2);
    }
    lemma_sum_update(s, i, (key, value));
}

proof fn lemma_lookup_update(s: Seq<(u64, u64)>, i: int, key: u64, value: u64, k2: u64)
    requires
        distinct_keys(s),
        0 <= i < s.len(),
        s[i].0 == key,
    ensures
        lookup(s.update(i, (key, value)), k2) == (if k2 == key {
            value
        } else {
            lookup(s, k2)
        }),
    decreases s.len(),
{
    let t = s.update(i, (key, value));
    if i == s.len() - 1 {
        assert(t.last() == (key, value));
        assert(t.drop_last() =~= s.drop_last());
        if k2 != key {
            assert(s.last().0 == key);
        }
    } else {
        assert(t.last() == s.last());
        assert(s.last().0 != key);
        assert(t.drop_last() =~= s.drop_last().update(i, (key, value)));
        lemma_distinct_drop_last(s);
        assert(s.drop_last()[i] == s[i]);
        lemma_lookup_update(s.drop_last(), i, key, value, k2);
    }
}

proof fn lemma_sum_update(s: Seq<(u64, u64)>, i: int, e: (u64, u64))
    requires
        0 <= i < s.len(),
    ensures
        sum_values(s.update(i, e)) == sum_values(s) - s[i].1 + e.1,
    decreases s.len(),
{
    let t = s.update(i, e);
    if i == s.len() - 1 {
        assert(t.last() == e);
        assert(t.drop_last() =~= s.drop_last());
    } else {
        assert(t.last() == s.last());
        assert(t.drop_last() =~= s.drop_last().update(i, e));
        assert(s.drop_last()[i] == s[i]);
        lemma_sum_update(s.drop_last(), i, e);
    }
}

/// Appending an entry for a key that no existing entry carries: the new
/// key's amount becomes `value` (it was zero), every other key is unchanged,
/// the keys stay distinct, and the sum grows by `value`.
pub proof fn lemma_push_entry(s: Seq<(u64, u64)>, key: u64, value: u64)
    requires
        distinct_keys(s),
        forall|j: int| 0 <= j < s.len() ==> (#[trigger] s[j]).0 != key,
    ensures
        distinct_keys(s.push((key, value))),
        forall|k2: u64|
            lookup(s.push((key, value)), k2) == (if k2 == key {
                value
            } else {
                lookup(s, k2)
            }),
        sum_values(s.push((key, value))) == sum_values(s) + value,
        lookup(s, key) == 0,
{
    let t = s.push((key, value));
    assert forall|a: int, b: int| 0 <= a < b < t.len() implies (#[trigger] t[a]).0 != (
    #[trigger] t[b]).0 by {
        if b < t.len() - 1 {
            assert(t[a] == s[a]);
            assert(t[b] == s[b]);
        } else {
            assert(t[a] == s[a]);
            assert(t[b] == (key, value));
        }
    }
    assert(t.last() == (key, value));
    assert(t.drop_last() =~= s);
    lemma_lookup_absent(s, key);
}

/// Reads the amount recorded for `key`; zero when no entry carries it.
pub fn get_value(entries: &Vec<(u64, u64)>, key: u64) -> (r: u64)
    requires
        distinct_keys(entries@),
    ensures
        r == lookup(entries@, key),
{
    let n: usize = entries.len();
    let mut i: usize = 0;
    while i < n
        invariant
            n == entries@.len(),
            0 <= i <= n,
            distinct_keys(entries@),
            forall|j: int| 0 <= j < i ==> (#[trigger] entries@[j]).0 != key,
        decreases n - i,
    {
        if entries[i].0 == key {
            proof {
                lemma_lookup_at(entries@, i as int, key);
            }
            return entries[i].1;
        }
        i = i + 1;
    }
    proof {
        lemma_lookup_absent(entries@, key);
    }
    0
}

/// Records `value` for `key`, overwriting the key's entry or creating one.
pub fn set_value(entries: &mut Vec<(u64, u64)>, key: u64, value: u64)
    requires
        distinct_keys(old(entries)@),
    ensures
        distinct_keys(final(entries)@),
        forall|k2: u64|
            lookup(final(entries)@, k2) == (if k2 == key {
                value
            } else {
                lookup(old(entries)@, k2)
            }),
        sum_values(final(entries)@) == sum_values(old(entries)@) - lookup(old(entries)@, key)
            + value,
{
    let n: usize = entries.len();
    let mut i: usize = 0;
    while i < n
        invariant
            n == entries@.len(),
            0 <= i <= n,
            entries@ == old(entries)@,
            distinct_keys(entries@),
            forall|j: int| 0 <= j < i ==> (#[trigger] entries@[j]).0 != key,
        decreases n - i,
    {
        if entries[i].0 == key {
            proof {
                lemma_lookup_at(entries@, i as int, key);
                lemma_update_entry(entries@, i as int, key, value);
            }
            entries.set(i, (key, value));
            return ;
        }
        i = i + 1;
    }
    proof {
        lemma_push_entry(entries@, key, value);
    }
    entries.push((key, value));
}

} // verus!
