//! The allowance registry's backing store: an association list from an
//! (owner, spender) pair to the unsigned spending limit the owner granted.
//! Absent pairs read as zero, and the list keeps at most one entry per pair.

use vstd::prelude::*;

verus! {

/// The identity of one grant: `owner` lets `spender` move its funds.
#[derive(Clone, Copy, Debug, PartialEq, Eq, Structural)]
pub struct AllowanceKey {
    pub owner: u64,
    pub spender: u64,
}

/// No (owner, spender) pair appears twice among the entries.
pub open spec fn distinct_keys(s: Seq<(AllowanceKey, u64)>) -> bool {
    forall|i: int, j: int| 0 <= i < j < s.len() ==> (#[trigger] s[i]).0 != (#[trigger] s[j]).0
}

/// The limit recorded for `key`, zero when no entry carries it.
pub open spec fn lookup(s: Seq<(AllowanceKey, u64)>, key: AllowanceKey) -> u64
    decreases s.len(),
{
    if s.len() == 0 {
        0u64
    } else if s.last().0 == key {
        s.last().1
    } else {
        lookup(s.drop_last(), key)
    }
}

/// Dropping the last entry keeps the keys distinct.
pub proof fn lemma_distinct_drop_last(s: Seq<(AllowanceKey, u64)>)
    requires
        distinct_keys(s),
        s.len() > 0,
    ensures
        distinct_keys(s.drop_last()),
{
    assert forall|i: int, j: int|
        0 <= i < j < s.drop_last().len() implies (#[trigger] s.drop_last()[i]).0 != (#[trigger] s
        .drop_last()[j]).0 by {
        assert(s.drop_last()[i] == s[i]);
        assert(s.drop_last()[j] == s[j]);
    }
}

/// When the keys are distinct, the entry at any index carrying `key` gives
/// the looked-up limit.
pub proof fn lemma_lookup_at(s: Seq<(AllowanceKey, u64)>, i: int, key: AllowanceKey)
    requires
        distinct_keys(s),
        0 <= i < s.len(),
        s[i].0 == key,
    ensures
        lookup(s, key) == s[i].1,
    decreases s.len(),
{
    if i == s.len() - 1 {
        assert(s.last() == s[i]);
    } else {
        assert(s.last().0 != key);
        lemma_distinct_drop_last(s);
        assert(s.drop_last()[i] == s[i]);
        lemma_lookup_at(s.drop_last(), i, key);
    }
}

/// A key that no entry carries looks up to zero.
pub proof fn lemma_lookup_absent(s: Seq<(AllowanceKey, u64)>, key: AllowanceKey)
    requires
        forall|j: int| 0 <= j < s.len() ==> (#[trigger] s[j]).0 != key,
    ensures
        lookup(s, key) == 0,
    decreases s.len(),
{
    if s.len() > 0 {
        assert(s.last() == s[s.len() - 1]);
        assert(forall|j: int|
            0 <= j < s.drop_last().len() ==> (#[trigger] s.drop_last()[j]) == s[j]);
        lemma_lookup_absent(s.drop_last(), key);
    }
}

/// Overwriting the entry at index `i` (which carries `key`) changes exactly
/// that key's limit and keeps the keys distinct.
pub proof fn lemma_update_entry(s: Seq<(AllowanceKey, u64)>, i: int, key: AllowanceKey, value: u64)
    requires
        distinct_keys(s),
        0 <= i < s.len(),
        s[i].0 == key,
    ensures
        distinct_keys(s.update(i, (key, value))),
        forall|k2: AllowanceKey|
            lookup(s.update(i, (key, value)), k2) == (if k2 == key {
                value
            } else {
                lookup(s, k2)
            }),
{
    let t = s.update(i, (key, value));
    assert forall|a: int, b: int| 0 <= a < b < t.len() implies (#[trigger] t[a]).0 != (
    #[trigger] t[b]).0 by {
        assert(s[a].0 != s[b].0);
    }
    assert forall|k2: AllowanceKey|
        lookup(t, k2) == (if k2 == key {
            value
        } else {
            lookup(s, k2)
        }) by {
        lemma_lookup_update(s, i, key, value, k2);
    }
}

proof fn lemma_lookup_update(
    s: Seq<(AllowanceKey, u64)>,
    i: int,
    key: AllowanceKey,
    value: u64,
    k2: AllowanceKey,
)
    requires
        distinct_keys(s),
        0 <= i < s.len(),
        s[i].0 == key,
    ensures
        lookup(s.update(i, (key, value)), k2) == (if k2 == key {
            value
        } else {
            lookup(s, k2)
        }),
    decreases s.len(),
{
    let t = s.update(i, (key, value));
    if i == s.len() - 1 {
        assert(t.last() == (key, value));
        assert(t.drop_last() =~= s.drop_last());
        if k2 != key {
            assert(s.last().0 == key);
        }
    } else {
        assert(t.last() == s.last());
        assert(s.last().0 != key);
        assert(t.drop_last() =~= s.drop_last().update(i, (key, value)));
        lemma_distinct_drop_last(s);
        assert(s.drop_last()[i] == s[i]);
        lemma_lookup_update(s.drop_last(), i, key, value, k2);
    }
}

/// Appending an entry for a key that no existing entry carries: the new
/// key's limit becomes `value` (it was zero), every other key is unchanged,
/// and the keys stay distinct.
pub proof fn lemma_push_entry(s: Seq<(AllowanceKey, u64)>, key: AllowanceKey, value: u64)
    requires
        distinct_keys(s),
        forall|j: int| 0 <= j < s.len() ==> (#[trigger] s[j]).0 != key,
    ensures
        distinct_keys(s.push((key, value))),
        forall|k2: AllowanceKey|
            lookup(s.push((key, value)), k2) == (if k2 == key {
                value
            } else {
                lookup(s, k2)
            }),
        lookup(s, key) == 0,
{
    let t = s.push((key, value));
    assert forall|a: int, b: int| 0 <= a < b < t.len() implies (#[trigger] t[a]).0 != (
    #[trigger] t[b]).0 by {
        if b < t.len() - 1 {
            assert(t[a] == s[a]);
            assert(t[b] == s[b]);
        } else {
            assert(t[a] == s[a]);
            assert(t[b] == (key, value));
        }
    }
    assert(t.last() == (key, value));
    assert(t.drop_last() =~= s);
    lemma_lookup_absent(s, key);
}

/// Reads the limit recorded for `key`; zero when no entry carries it.
pub fn get_value(entries: &Vec<(AllowanceKey, u64)>, key: AllowanceKey) -> (r: u64)
    requires
        distinct_keys(entries@),
    ensures
        r == lookup(entries@, key),
{
    let n: usize = entries.len();
    let mut i: usize = 0;
    while i < n
        invariant
            n == entries@.len(),
            0 <= i <= n,
            distinct_keys(entries@),
            forall|j: int| 0 <= j < i ==> (#[trigger] entries@[j]).0 != key,
        decreases n - i,
    {
        let e = entries[i];
        if e.0.owner == key.owner && e.0.spender == key.spender {
            proof {
                lemma_lookup_at(entries@, i as int, key);
            }
            return e.1;
        }
        i = i + 1;
    }
    proof {
        lemma_lookup_absent(entries@, key);
    }
    0
}

/// Records `value` for `key`, overwriting the key's entry or creating one.
pub fn set_value(entries: &mut Vec<(AllowanceKey, u64)>, key: AllowanceKey, value: u64)
    requires
        distinct_keys(old(entries)@),
    ensures
        distinct_keys(final(entries)@),
        forall|k2: AllowanceKey|
            lookup(final(entries)@, k2) == (if k2 == key {
                value
            } else {
                lookup(old(entries)@, k2)
            }),
{
    let n: usize = entries.len();
    let mut i: usize = 0;
    while i < n
        invariant
            n == entries@.len(),
            0 <= i <= n,
            entries@ == old(entries)@,
            distinct_keys(entries@),
            forall|j: int| 0 <= j < i ==> (#[trigger] entries@[j]).0 != key,
        decreases n - i,
    {
        let e = entries[i];
        if e.0.owner == key.owner && e.0.spender == key.spender {
            proof {
                lemma_update_entry(entries@, i as int, key, value);
            }
            entries.set(i, (key, value));
            return ;
        }
        i = i + 1;
    }
    proof {
        lemma_push_entry(entries@, key, value);
    }
    entries.push((key, value));
}

} // verus!
