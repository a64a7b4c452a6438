//! The proof-of-history sequencer: an append-only chain of hashes, each
//! derived from the previous entry and new event data.
//!
//! The chain starts from a fixed seed entry and only grows; a tick appends
//! exactly one entry, so the index a tick returns (the length before it)
//! increases by exactly one from tick to tick.

use vstd::prelude::*;
use crate::crypto::{sha256, sha256_of};
use crate::encoding::{append_bytes, clone_bytes};

verus! {

/// The bytes hashed to form the seed entry (the ASCII of "GrokChain PoH Seed").
pub open spec fn poh_seed_input() -> Seq<u8> {
    seq![71u8, 114, 111, 107, 67, 104, 97, 105, 110, 32, 80, 111, 72, 32, 83, 101, 101, 100]
}

/// The chain after one tick with event data `e`: the hash of the last entry
/// followed by the event data is appended.
pub open spec fn poh_step(m: Seq<Seq<u8>>, e: Seq<u8>) -> Seq<Seq<u8>> {
    m.push(sha256_of(m.last() + e))
}

/// The chain after ticking each event of `events` in order.
pub open spec fn poh_after(m: Seq<Seq<u8>>, events: Seq<Seq<u8>>) -> Seq<Seq<u8>>
    decreases events.len(),
{
    if events.len() == 0 {
        m
    } else {
        poh_after(poh_step(m, events[0]), events.drop_first())
    }
}

/// Law: a run of N ticks grows the chain by exactly N entries and never
/// rewrites an existing one. Since each tick returns the length before it,
/// the indices returned by consecutive ticks increase by exactly 1.
pub proof fn lemma_poh_growth(m: Seq<Seq<u8>>, events: Seq<Seq<u8>>)
    ensures
        poh_after(m, events).len() == m.len() + events.len(),
        forall|i: int| 0 <= i < m.len() ==> poh_after(m, events)[i] == m[i],
    decreases events.len(),
{
    if events.len() > 0 {
        lemma_poh_growth(poh_step(m, events[0]), events.drop_first());
        assert(poh_after(m, events) == poh_after(poh_step(m, events[0]), events.drop_first()));
        assert(poh_step(m, events[0]).len() == m.len() + 1);
        assert forall|i: int| 0 <= i < m.len() implies poh_after(m, events)[i] == m[i] by {
            assert(poh_after(m, events)[i] == poh_step(m, events[0])[i]);
            assert(poh_step(m, events[0])[i] == m[i]);
        }
    }
}

pub struct PohSequencer {
    pub entries: Vec<Vec<u8>>,
}

impl PohSequencer {
    /// The abstract chain: the sequence of entry hashes.
    pub open spec fn model(self) -> Seq<Seq<u8>> {
        self.entries@.map_values(|v: Vec<u8>| v@)
    }

    /// The chain always holds at least the seed entry.
    pub open spec fn wf(self) -> bool {
        self.model().len() >= 1
    }

    /// A fresh chain holding only the seed entry.
    pub fn new() -> (r: PohSequencer)
        ensures
            r.model() =~= seq![sha256_of(poh_seed_input())],
            r.wf(),
    {
        let seed_data: Vec<u8> = vec![
            71u8, 114, 111, 107, 67, 104, 97, 105, 110, 32, 80, 111, 72, 32, 83, 101, 101, 100,
        ];
        assert(seed_data@ =~= poh_seed_input());
        let seed = sha256(seed_data.as_slice());
        let mut entries: Vec<Vec<u8>> = Vec::new();
        entries.push(seed);
        let r = PohSequencer { entries };
        assert(r.model() =~= seq![sha256_of(poh_seed_input())]);
        r
    }

    /// Appends one entry mixed from the last entry and `event`, and returns
    /// its index (the chain length before the tick) together with the new
    /// entry's hash.
    pub fn tick(&mut self, event: &[u8]) -> (r: (usize, Vec<u8>))
        requires
            old(self).wf(),
            old(self).model().len() < usize::MAX,
        ensures
            final(self).model() == poh_step(old(self).model(), event@),
            final(self).wf(),
            r.0 == old(self).model().len(),
            r.1@ == final(self).model().last(),
    {
        let index = self.entries.len();
        let mut data = clone_bytes(self.entries[index - 1].as_slice());
        append_bytes(&mut data, event);
        let mix = sha256(data.as_slice());
        let mix_copy = clone_bytes(mix.as_slice());
        self.entries.push(mix);
        assert(self.model() =~= poh_step(old(self).model(), event@));
        (index, mix_copy)
    }

    /// Reads the current tip without mutating: the last entry's index and hash.
    pub fn current(&self) -> (r: (usize, Vec<u8>))
        requires
            self.wf(),
        ensures
            r.0 == self.model().len() - 1,
            r.1@ == self.model().last(),
    {
        let index = self.entries.len() - 1;
        let tip = clone_bytes(self.entries[index].as_slice());
        (index, tip)
    }

    /// The number of entries in the chain.
    pub fn len(&self) -> (r: usize)
        ensures
            r == self.model().len(),
    {
        self.entries.len()
    }
}

} // verus!
