//! A table from keys to `u128` amounts in which a key without an entry reads
//! as zero. Entries are never removed; writing zero keeps the entry.
use vstd::prelude::*;

use crate::account::KeyEq;

verus! {

/// The amount recorded for `k` in `s`: the value of the last entry with key
/// `k`, or zero when no entry has that key.
pub open spec fn lookup<K>(s: Seq<(K, u128)>, k: K) -> u128
    decreases s.len(),
{
    if s.len() == 0 {
        0
    } else if s.last().0 == k {
        s.last().1
    } else {
        lookup(s.drop_last(), k)
    }
}

/// The sum of the amounts of all entries of `s`.
pub open spec fn sum<K>(s: Seq<(K, u128)>) -> int
    decreases s.len(),
{
    if s.len() == 0 {
        0
    } else {
        sum(s.drop_last()) + s.last().1
    }
}

/// No two entries of `s` share a key.
pub open spec fn distinct_keys<K>(s: Seq<(K, u128)>) -> bool {
    forall|i: int, j: int| 0 <= i < j < s.len() ==> s[i].0 != s[j].0
}

proof fn lemma_lookup_at<K>(s: Seq<(K, u128)>, i: int)
    requires
        0 <= i < s.len(),
        forall|j: int| i < j < s.len() ==> s[j].0 != s[i].0,
    ensures
        lookup(s, s[i].0) == s[i].1,
    decreases s.len(),
{
    if i < s.len() - 1 {
        assert(s.last().0 != s[i].0);
        assert(s.drop_last()[i] == s[i]);
        lemma_lookup_at(s.drop_last(), i);
    }
}

proof fn lemma_lookup_absent<K>(s: Seq<(K, u128)>, k: K)
    requires
        forall|i: int| 0 <= i < s.len() ==> s[i].0 != k,
    ensures
        lookup(s, k) == 0,
    decreases s.len(),
{
    if s.len() > 0 {
        assert(s.last().0 != k);
        lemma_lookup_absent(s.drop_last(), k);
    }
}

proof fn lemma_lookup_update_other<K>(s: Seq<(K, u128)>, i: int, e: (K, u128), k: K)
    requires
        0 <= i < s.len(),
        s[i].0 != k,
        e.0 != k,
    ensures
        lookup(s.update(i, e), k) == lookup(s, k),
    decreases s.len(),
{
    let t = s.update(i, e);
    if i == s.len() - 1 {
        assert(t.drop_last() =~= s.drop_last());
    } else {
        assert(t.drop_last() =~= s.drop_last().update(i, e));
        lemma_lookup_update_other(s.drop_last(), i, e, k);
    }
}

proof fn lemma_sum_update<K>(s: Seq<(K, u128)>, i: int, e: (K, u128))
    requires
        0 <= i < s.len(),
    ensures
        sum(s.update(i, e)) == sum(s) - s[i].1 + e.1,
    decreases s.len(),
{
    let t = s.update(i, e);
    if i == s.len() - 1 {
        assert(t.drop_last() =~= s.drop_last());
    } else {
        assert(t.drop_last() =~= s.drop_last().update(i, e));
        lemma_sum_update(s.drop_last(), i, e);
    }
}

proof fn lemma_lookup_le_sum<K>(s: Seq<(K, u128)>, k: K)
    requires
        distinct_keys(s),
    ensures
        lookup(s, k) <= sum(s),
    decreases s.len(),
{
    if s.len() > 0 {
        lemma_lookup_le_sum(s.drop_last(), k);
    }
}

proof fn lemma_two_lookups_le_sum<K>(s: Seq<(K, u128)>, a: K, b: K)
    requires
        distinct_keys(s),
        a != b,
    ensures
        lookup(s, a) + lookup(s, b) <= sum(s),
    decreases s.len(),
{
    if s.len() > 0 {
        lemma_lookup_le_sum(s.drop_last(), a);
        lemma_lookup_le_sum(s.drop_last(), b);
        if s.last().0 != a && s.last().0 != b {
            lemma_two_lookups_le_sum(s.drop_last(), a, b);
        }
    }
}

/// A table of amounts keyed by `K`, held as a list of entries with distinct
/// keys.
pub struct Table<K> {
    entries: Vec<(K, u128)>,
}

impl<K: KeyEq> Table<K> {
    /// The entries have distinct keys.
    pub closed spec fn wf(&self) -> bool {
        distinct_keys(self.entries@)
    }

    /// The amount recorded for `k`, zero when it has no entry.
    pub closed spec fn amount(&self, k: K) -> u128 {
        lookup(self.entries@, k)
    }

    /// The sum of the amounts over all keys.
    pub closed spec fn total(&self) -> int {
        sum(self.entries@)
    }

    /// The amount of one key never exceeds the total.
    pub proof fn lemma_amount_le_total(&self, k: K)
        requires
            self.wf(),
        ensures
            self.amount(k) <= self.total(),
    {
        lemma_lookup_le_sum(self.entries@, k);
    }

    /// The amounts of two different keys together never exceed the total.
    pub proof fn lemma_two_amounts_le_total(&self, a: K, b: K)
        requires
            self.wf(),
            a != b,
        ensures
            self.amount(a) + self.amount(b) <= self.total(),
    {
        lemma_two_lookups_le_sum(self.entries@, a, b);
    }

    /// An empty table: every key reads as zero.
    pub fn new() -> (r: Self)
        ensures
            r.wf(),
            r.total() == 0,
            forall|k: K| #[trigger] r.amount(k) == 0,
    {
        Table { entries: Vec::new() }
    }

    /// The position of the last entry with key `k`, if any.
    fn find(&self, k: &K) -> (r: Option<usize>)
        ensures
            match r {
                Some(i) => {
                    &&& i < self.entries@.len()
                    &&& self.entries@[i as int].0 == *k
                    &&& forall|j: int| i < j < self.entries@.len() ==> self.entries@[j].0 != *k
                },
                None => forall|i: int| 0 <= i < self.entries@.len() ==> self.entries@[i].0 != *k,
            },
    {
        let mut i: usize = self.entries.len();
        while i > 0
            invariant
                i <= self.entries@.len(),
                forall|j: int| i <= j < self.entries@.len() ==> self.entries@[j].0 != *k,
            decreases i,
        {
            if self.entries[i - 1].0.same_key(k) {
                return Some(i - 1);
            }
            i = i - 1;
        }
        None
    }

    /// The amount recorded for `k`, or zero when it has no entry.
    pub fn get(&self, k: &K) -> (r: u128)
        ensures
            r == self.amount(*k),
    {
        match self.find(k) {
            Some(i) => {
                proof {
                    lemma_lookup_at(self.entries@, i as int);
                }
                self.entries[i].1
            },
            None => {
                proof {
                    lemma_lookup_absent(self.entries@, *k);
                }
                0
            },
        }
    }

    /// Records `v` for `k`, replacing what was there; other keys keep their
    /// amounts.
    pub fn insert(&mut self, k: K, v: u128)
        requires
            old(self).wf(),
        ensures
            final(self).wf(),
            final(self).amount(k) == v,
            forall|j: K| j != k ==> #[trigger] final(self).amount(j) == old(self).amount(j),
            final(self).total() == old(self).total() - old(self).amount(k) + v,
    {
        let ghost s = self.entries@;
        let ghost key = k;
        match self.find(&k) {
            Some(i) => {
                proof {
                    lemma_lookup_at(s, i as int);
                }
                self.entries.set(i, (k, v));
                proof {
                    let t = self.entries@;
                    assert(t == s.update(i as int, (key, v)));
                    assert(distinct_keys(t));
                    lemma_lookup_at(t, i as int);
                    lemma_sum_update(s, i as int, (key, v));
                    assert forall|j: K| j != key implies #[trigger] lookup(t, j) == lookup(s, j) by {
                        lemma_lookup_update_other(s, i as int, (key, v), j);
                    }
                }
            },
            None => {
                proof {
                    lemma_lookup_absent(s, key);
                }
                self.entries.push((k, v));
                proof {
                    assert(self.entries@.drop_last() =~= s);
                }
            },
        }
    }
}

} // verus!
