//! Admission control: a sliding-window rate limiter and a blacklist with
//! escalating bans, keyed by submitter identity.
//!
//! Records form an association list read front to back; an update prepends a
//! fresh record for the identity, shadowing older ones. Old timestamps are
//! never removed, only ignored once they fall out of the window.

use vstd::prelude::*;
use crate::encoding::{bytes_eq, clone_bytes};

verus! {

/// Submissions allowed per identity inside one window.
pub const RATE_LIMIT: usize = 5;

/// The width of the rate-limit window, in seconds.
pub const RATE_WINDOW: u64 = 1;

/// How long a ban lasts, in seconds.
pub const BAN_DURATION: u64 = 1800;

/// How many recorded failures trigger a ban.
pub const FAIL_THRESHOLD: u64 = 3;

#[derive(Debug, PartialEq, Eq, Structural, Clone, Copy)]
pub enum AdmissionError {
    /// The identity is banned until its unban time.
    Banned,
    /// The identity already used its allowance inside the current window.
    RateLimited,
}

/// Everything tracked about one identity.
pub struct IdentityRecord {
    pub key: Vec<u8>,
    pub timestamps: Vec<u64>,
    pub failed: u64,
    pub unban: u64,
}

/// The first record for a key, front to back.
pub open spec fn find_rec(s: Seq<IdentityRecord>, k: Seq<u8>) -> Option<IdentityRecord>
    decreases s.len(),
{
    if s.len() == 0 {
        None
    } else if s[0].key@ == k {
        Some(s[0])
    } else {
        find_rec(s.drop_first(), k)
    }
}

/// The submission timestamps recorded for an identity.
pub open spec fn timestamps_of(s: Seq<IdentityRecord>, k: Seq<u8>) -> Seq<u64> {
    match find_rec(s, k) {
        Some(r) => r.timestamps@,
        None => Seq::empty(),
    }
}

/// The failure count of an identity.
pub open spec fn failed_of(s: Seq<IdentityRecord>, k: Seq<u8>) -> u64 {
    match find_rec(s, k) {
        Some(r) => r.failed,
        None => 0u64,
    }
}

/// The unban time of an identity (0 when never banned).
pub open spec fn unban_of(s: Seq<IdentityRecord>, k: Seq<u8>) -> u64 {
    match find_rec(s, k) {
        Some(r) => r.unban,
        None => 0u64,
    }
}

/// Whether a submission at `t` still counts at `now`.
pub open spec fn in_window(t: u64, now: u64) -> bool {
    t <= now && now - t < RATE_WINDOW
}

/// How many recorded timestamps still count at `now`.
pub open spec fn count_recent(ts: Seq<u64>, now: u64) -> int
    decreases ts.len(),
{
    if ts.len() == 0 {
        0
    } else {
        (if in_window(ts[0], now) { 1int } else { 0int }) + count_recent(ts.drop_first(), now)
    }
}

/// The admission decision for an identity at `now`: banned identities are
/// rejected outright, then the rate limiter counts the window.
pub open spec fn check_spec(
    s: Seq<IdentityRecord>,
    k: Seq<u8>,
    now: u64,
) -> Result<(), AdmissionError> {
    if now < unban_of(s, k) {
        Err(AdmissionError::Banned)
    } else if count_recent(timestamps_of(s, k), now) >= RATE_LIMIT as int {
        Err(AdmissionError::RateLimited)
    } else {
        Ok(())
    }
}

/// Law: a ban rejects exactly the submissions strictly before the unban
/// time; from the unban time on, the identity is no longer rejected as
/// banned.
pub proof fn lemma_ban_boundary(s: Seq<IdentityRecord>, k: Seq<u8>, now: u64)
    ensures
        (check_spec(s, k, now) == Err::<(), AdmissionError>(AdmissionError::Banned))
            <==> now < unban_of(s, k),
{
}

/// Law: once every recorded timestamp has aged past the window, the rate
/// limiter counts nothing, so a fresh submission is admitted again.
pub proof fn lemma_window_slide(ts: Seq<u64>, now: u64)
    requires
        forall|i: int| 0 <= i < ts.len() ==> #[trigger] ts[i] + RATE_WINDOW <= now,
    ensures
        count_recent(ts, now) == 0,
    decreases ts.len(),
{
    if ts.len() > 0 {
        assert(ts[0] + RATE_WINDOW <= now);
        assert forall|i: int| 0 <= i < ts.drop_first().len()
            implies #[trigger] ts.drop_first()[i] + RATE_WINDOW <= now by {
            assert(ts.drop_first()[i] == ts[i + 1]);
        }
        lemma_window_slide(ts.drop_first(), now);
    }
}

proof fn lemma_find_rec_skip_one(s: Seq<IdentityRecord>, k: Seq<u8>, i: int)
    requires
        0 <= i < s.len(),
        s[i].key@ != k,
    ensures
        find_rec(s.skip(i), k) == find_rec(s.skip(i + 1), k),
{
    assert(s.skip(i)[0] == s[i]);
    assert(s.skip(i).drop_first() =~= s.skip(i + 1));
}

/// Copies a vector of timestamps.
fn clone_u64s(v: &Vec<u64>) -> (r: Vec<u64>)
    ensures
        r@ == v@,
{
    let mut out: Vec<u64> = Vec::new();
    let mut i: usize = 0;
    while i < v.len()
        invariant
            i <= v@.len(),
            out@ =~= v@.subrange(0, i as int),
        decreases v@.len() - i,
    {
        out.push(v[i]);
        i = i + 1;
    }
    assert(out@ =~= v@);
    out
}

/// Counts the timestamps of `ts` still inside the window at `now`.
fn count_window(ts: &Vec<u64>, now: u64) -> (r: usize)
    ensures
        r == count_recent(ts@, now),
{
    let mut count: usize = 0;
    let mut i: usize = 0;
    proof {
        assert(ts@.skip(0) =~= ts@);
    }
    while i < ts.len()
        invariant
            i <= ts@.len(),
            count <= i,
            count + count_recent(ts@.skip(i as int), now) == count_recent(ts@, now),
        decreases ts@.len() - i,
    {
        proof {
            assert(ts@.skip(i as int)[0] == ts@[i as int]);
            assert(ts@.skip(i as int).drop_first() =~= ts@.skip(i + 1));
            lemma_count_recent_bounds(ts@.skip(i + 1), now);
        }
        let t = ts[i];
        if t <= now && now - t < RATE_WINDOW {
            count = count + 1;
        }
        i = i + 1;
    }
    assert(ts@.skip(ts@.len() as int).len() == 0);
    count
}

proof fn lemma_count_recent_bounds(ts: Seq<u64>, now: u64)
    ensures
        0 <= count_recent(ts, now) <= ts.len(),
    decreases ts.len(),
{
    if ts.len() > 0 {
        lemma_count_recent_bounds(ts.drop_first(), now);
    }
}

/// The admission gate.
pub struct AdmissionControl {
    pub records: Vec<IdentityRecord>,
}

impl AdmissionControl {
    /// A fresh gate: nobody is banned, nothing is counted.
    pub fn new() -> (r: AdmissionControl)
        ensures
            forall|k: Seq<u8>| find_rec(r.records@, k) is None,
    {
        AdmissionControl { records: Vec::new() }
    }

    /// The index of the identity's record, when one exists.
    fn find_index(&self, k: &[u8]) -> (r: Option<usize>)
        ensures
            match r {
                Some(i) => i < self.records@.len() && self.records@[i as int].key@ == k@
                    && find_rec(self.records@, k@) == Some(self.records@[i as int]),
                None => find_rec(self.records@, k@) is None,
            },
    {
        let mut i: usize = 0;
        proof {
            assert(self.records@.skip(0) =~= self.records@);
        }
        while i < self.records.len()
            invariant
                i <= self.records@.len(),
                find_rec(self.records@, k@) == find_rec(self.records@.skip(i as int), k@),
            decreases self.records@.len() - i,
        {
            if bytes_eq(self.records[i].key.as_slice(), k) {
                assert(self.records@.skip(i as int)[0] == self.records@[i as int]);
                return Some(i);
            }
            proof {
                lemma_find_rec_skip_one(self.records@, k@, i as int);
            }
            i = i + 1;
        }
        assert(self.records@.skip(i as int).len() == 0);
        None
    }

    /// Whether the identity is banned at `now`.
    pub fn is_banned(&self, identity: &[u8], now: u64) -> (r: bool)
        ensures
            r == (now < unban_of(self.records@, identity@)),
    {
        match self.find_index(identity) {
            Some(i) => now < self.records[i].unban,
            None => false,
        }
    }

    /// Prepends a fresh record for `k`, shadowing any older one.
    fn put_record(&mut self, k: &[u8], timestamps: Vec<u64>, failed: u64, unban: u64)
        ensures
            timestamps_of(final(self).records@, k@) == timestamps@,
            failed_of(final(self).records@, k@) == failed,
            unban_of(final(self).records@, k@) == unban,
            forall|k2: Seq<u8>| k2 != k@ ==> find_rec(final(self).records@, k2)
                == find_rec(old(self).records@, k2),
    {
        let ghost ts_view = timestamps@;
        let rec = IdentityRecord { key: clone_bytes(k), timestamps, failed, unban };
        self.records.insert(0, rec);
        proof {
            assert(self.records@[0].key@ == k@);
            assert(self.records@[0].timestamps@ == ts_view);
            assert(self.records@.drop_first() =~= old(self).records@);
        }
    }

    /// The admission decision for one submission: rejects a banned identity,
    /// then an identity that used up its window allowance; otherwise records
    /// the timestamp and admits. Rejections mutate nothing.
    pub fn check_submission(&mut self, identity: &[u8], now: u64) -> (r: Result<
        (),
        AdmissionError,
    >)
        ensures
            r == check_spec(old(self).records@, identity@, now),
            r is Err ==> *final(self) == *old(self),
            r is Ok ==> {
                &&& timestamps_of(final(self).records@, identity@)
                    == timestamps_of(old(self).records@, identity@).push(now)
                &&& failed_of(final(self).records@, identity@)
                    == failed_of(old(self).records@, identity@)
                &&& unban_of(final(self).records@, identity@)
                    == unban_of(old(self).records@, identity@)
                &&& forall|k2: Seq<u8>| k2 != identity@ ==> find_rec(final(self).records@, k2)
                    == find_rec(old(self).records@, k2)
            },
    {
        let (timestamps, failed, unban) = match self.find_index(identity) {
            Some(i) => (
                clone_u64s(&self.records[i].timestamps),
                self.records[i].failed,
                self.records[i].unban,
            ),
            None => (Vec::new(), 0u64, 0u64),
        };
        if now < unban {
            return Err(AdmissionError::Banned);
        }
        if count_window(&timestamps, now) >= RATE_LIMIT {
            return Err(AdmissionError::RateLimited);
        }
        let mut new_ts = timestamps;
        new_ts.push(now);
        self.put_record(identity, new_ts, failed, unban);
        Ok(())
    }

    /// Records a validation failure against an identity: the count rises by
    /// one, and on reaching the threshold the identity is banned for exactly
    /// `BAN_DURATION` and the count resets.
    pub fn record_failure(&mut self, identity: &[u8], now: u64)
        requires
            now + BAN_DURATION <= u64::MAX,
        ensures
            timestamps_of(final(self).records@, identity@)
                == timestamps_of(old(self).records@, identity@),
            if failed_of(old(self).records@, identity@) + 1 >= FAIL_THRESHOLD {
                failed_of(final(self).records@, identity@) == 0
                    && unban_of(final(self).records@, identity@) == now + BAN_DURATION
            } else {
                failed_of(final(self).records@, identity@)
                    == failed_of(old(self).records@, identity@) + 1
                    && unban_of(final(self).records@, identity@)
                    == unban_of(old(self).records@, identity@)
            },
            forall|k2: Seq<u8>| k2 != identity@ ==> find_rec(final(self).records@, k2)
                == find_rec(old(self).records@, k2),
    {
        let (timestamps, failed, unban) = match self.find_index(identity) {
            Some(i) => (
                clone_u64s(&self.records[i].timestamps),
                self.records[i].failed,
                self.records[i].unban,
            ),
            None => (Vec::new(), 0u64, 0u64),
        };
        if failed >= FAIL_THRESHOLD - 1 {
            self.put_record(identity, timestamps, 0, now + BAN_DURATION);
        } else {
            self.put_record(identity, timestamps, failed + 1, unban);
        }
    }

    /// A valid submission wipes the identity's failure count.
    pub fn record_success(&mut self, identity: &[u8])
        ensures
            timestamps_of(final(self).records@, identity@)
                == timestamps_of(old(self).records@, identity@),
            failed_of(final(self).records@, identity@) == 0,
            unban_of(final(self).records@, identity@)
                == unban_of(old(self).records@, identity@),
            forall|k2: Seq<u8>| k2 != identity@ ==> find_rec(final(self).records@, k2)
                == find_rec(old(self).records@, k2),
    {
        let (timestamps, unban) = match self.find_index(identity) {
            Some(i) => (clone_u64s(&self.records[i].timestamps), self.records[i].unban),
            None => (Vec::new(), 0u64),
        };
        self.put_record(identity, timestamps, 0, unban);
    }
}

} // verus!
