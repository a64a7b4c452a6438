//! A balance map from account identifiers (byte strings) to `u64` values.
//!
//! The map is a total function: an account never seen maps to 0. Entries are
//! kept as an association list read front to back; an update prepends, so the
//! newest entry for a key shadows older ones.

use vstd::prelude::*;
use crate::encoding::{bytes_eq, clone_bytes};

verus! {

pub struct BalanceMap {
    pub entries: Vec<(Vec<u8>, u64)>,
}

/// The value the association list gives a key: the first matching entry's
/// value, or 0 when no entry matches.
pub open spec fn lookup(s: Seq<(Vec<u8>, u64)>, k: Seq<u8>) -> u64
    decreases s.len(),
{
    if s.len() == 0 {
        0u64
    } else if s[0].0@ == k {
        s[0].1
    } else {
        lookup(s.drop_first(), k)
    }
}

/// Dropping a scanned, non-matching prefix does not change a key's value.
proof fn lemma_lookup_skip_one(s: Seq<(Vec<u8>, u64)>, k: Seq<u8>, i: int)
    requires
        0 <= i < s.len(),
        s[i].0@ != k,
    ensures
        lookup(s.skip(i), k) == lookup(s.skip(i + 1), k),
{
    assert(s.skip(i).len() > 0);
    assert(s.skip(i)[0] == s[i]);
    assert(s.skip(i).drop_first() =~= s.skip(i + 1));
}

impl BalanceMap {
    /// The abstract value of the map at a key.
    pub open spec fn spec_get(self, k: Seq<u8>) -> u64 {
        lookup(self.entries@, k)
    }

    /// An empty map: every account has balance 0.
    pub fn new() -> (r: BalanceMap)
        ensures
            forall|k: Seq<u8>| r.spec_get(k) == 0u64,
    {
        BalanceMap { entries: Vec::new() }
    }

    /// The balance of `k`; 0 for an account never seen.
    pub fn get(&self, k: &[u8]) -> (r: u64)
        ensures
            r == self.spec_get(k@),
    {
        let mut i: usize = 0;
        assert(self.entries@.skip(0) =~= self.entries@);
        while i < self.entries.len()
            invariant
                i <= self.entries@.len(),
                lookup(self.entries@, k@) == lookup(self.entries@.skip(i as int), k@),
            decreases self.entries@.len() - i,
        {
            if bytes_eq(self.entries[i].0.as_slice(), k) {
                assert(self.entries@.skip(i as int)[0] == self.entries@[i as int]);
                return self.entries[i].1;
            }
            proof {
                lemma_lookup_skip_one(self.entries@, k@, i as int);
            }
            i = i + 1;
        }
        assert(self.entries@.skip(i as int).len() == 0);
        0
    }

    /// Sets the balance of `k` to `v`; every other account keeps its value.
    pub fn set(&mut self, k: &[u8], v: u64)
        ensures
            final(self).spec_get(k@) == v,
            forall|k2: Seq<u8>| k2 != k@ ==> final(self).spec_get(k2) == old(self).spec_get(k2),
    {
        let owned = clone_bytes(k);
        self.entries.insert(0, (owned, v));
        assert forall|k2: Seq<u8>| k2 != k@ implies self.spec_get(k2) == old(self).spec_get(k2) by {
            assert(self.entries@.drop_first() =~= old(self).entries@);
        }
        assert(self.entries@.drop_first() =~= old(self).entries@);
    }

    /// A copy with the same abstract value at every key.
    pub fn duplicate(&self) -> (r: BalanceMap)
        ensures
            forall|k: Seq<u8>| r.spec_get(k) == self.spec_get(k),
    {
        let mut out: Vec<(Vec<u8>, u64)> = Vec::new();
        let mut i: usize = 0;
        while i < self.entries.len()
            invariant
                i <= self.entries@.len(),
                out@.len() == i,
                forall|j: int| 0 <= j < i ==> out@[j].0@ == self.entries@[j].0@
                    && out@[j].1 == self.entries@[j].1,
            decreases self.entries@.len() - i,
        {
            let key = clone_bytes(self.entries[i].0.as_slice());
            out.push((key, self.entries[i].1));
            i = i + 1;
        }
        let r = BalanceMap { entries: out };
        assert forall|k: Seq<u8>| true implies r.spec_get(k) == self.spec_get(k) by {
            lemma_lookup_congruent(r.entries@, self.entries@, k);
        }
        r
    }
}

/// Two association lists whose entries match pairwise give every key the same
/// value.
proof fn lemma_lookup_congruent(a: Seq<(Vec<u8>, u64)>, b: Seq<(Vec<u8>, u64)>, k: Seq<u8>)
    requires
        a.len() == b.len(),
        forall|j: int| 0 <= j < a.len() ==> a[j].0@ == b[j].0@ && a[j].1 == b[j].1,
    ensures
        lookup(a, k) == lookup(b, k),
    decreases a.len(),
{
    if a.len() > 0 {
        lemma_lookup_congruent(a.drop_first(), b.drop_first(), k);
    }
}

} // verus!
