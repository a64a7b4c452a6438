//! The balance ledger: two account maps (transactional balances and native
//! balances for rewards and fees) with atomic, all-or-nothing application of
//! a batch of transfers.

use vstd::prelude::*;
use crate::accounts::{lookup, BalanceMap};
use crate::block::Transaction;

verus! {

broadcast use vstd::set::group_set_axioms, vstd::map::group_map_axioms;

#[derive(Debug, PartialEq, Eq, Structural, Clone, Copy)]
pub enum LedgerError {
    /// Some debit in the batch would underflow a sender's balance.
    InsufficientFunds,
    /// Some credit in the batch would overflow a `u64` balance.
    BalanceOverflow,
}

/// The total map a balance map denotes: every account has a value, 0 when
/// never seen.
pub open spec fn bal_map(m: BalanceMap) -> Map<Seq<u8>, u64> {
    Map::total(|k: Seq<u8>| lookup(m.entries@, k))
}

/// One transfer: debit the sender, then credit the receiver. Fails when the
/// debit would underflow or the credit would overflow.
pub open spec fn apply_one(
    b: Map<Seq<u8>, u64>,
    t: Transaction,
) -> Result<Map<Seq<u8>, u64>, LedgerError> {
    if b[t.sender@] < t.amount {
        Err(LedgerError::InsufficientFunds)
    } else {
        let b1 = b.insert(t.sender@, (b[t.sender@] - t.amount) as u64);
        if b1[t.receiver@] + t.amount > u64::MAX {
            Err(LedgerError::BalanceOverflow)
        } else {
            Ok(b1.insert(t.receiver@, (b1[t.receiver@] + t.amount) as u64))
        }
    }
}

/// A batch of transfers applied in order; the first failure aborts the whole
/// batch.
pub open spec fn apply_txs(
    b: Map<Seq<u8>, u64>,
    txs: Seq<Transaction>,
) -> Result<Map<Seq<u8>, u64>, LedgerError>
    decreases txs.len(),
{
    if txs.len() == 0 {
        Ok(b)
    } else {
        match apply_one(b, txs[0]) {
            Ok(b1) => apply_txs(b1, txs.drop_first()),
            Err(e) => Err(e),
        }
    }
}

/// A single credit; fails on `u64` overflow.
pub open spec fn credit(
    b: Map<Seq<u8>, u64>,
    k: Seq<u8>,
    v: u64,
) -> Result<Map<Seq<u8>, u64>, LedgerError> {
    if b[k] + v > u64::MAX {
        Err(LedgerError::BalanceOverflow)
    } else {
        Ok(b.insert(k, (b[k] + v) as u64))
    }
}

/// The whole block application: every transfer, then the fee credit, then
/// the reward credit, all of it or none of it.
pub open spec fn apply_block_spec(
    bal: Map<Seq<u8>, u64>,
    grok: Map<Seq<u8>, u64>,
    txs: Seq<Transaction>,
    fees_recipient: Seq<u8>,
    reward_recipient: Seq<u8>,
    fees: u64,
    reward: u64,
) -> Result<(Map<Seq<u8>, u64>, Map<Seq<u8>, u64>), LedgerError> {
    match apply_txs(bal, txs) {
        Ok(b2) => match credit(grok, fees_recipient, fees) {
            Ok(g2) => match credit(g2, reward_recipient, reward) {
                Ok(g3) => Ok((b2, g3)),
                Err(e) => Err(e),
            },
            Err(e) => Err(e),
        },
        Err(e) => Err(e),
    }
}

proof fn lemma_apply_txs_split(b: Map<Seq<u8>, u64>, s: Seq<Transaction>, i: int)
    requires
        0 <= i <= s.len(),
    ensures
        apply_txs(b, s) == match apply_txs(b, s.take(i)) {
            Ok(bi) => apply_txs(bi, s.skip(i)),
            Err(e) => Err(e),
        },
    decreases i,
{
    if i == 0 {
        assert(s.take(0) =~= Seq::<Transaction>::empty());
        assert(s.skip(0) =~= s);
    } else {
        assert(s.take(i)[0] == s[0]);
        assert(s.take(i).drop_first() =~= s.drop_first().take(i - 1));
        assert(s.skip(i) =~= s.drop_first().skip(i - 1));
        match apply_one(b, s[0]) {
            Ok(b1) => {
                lemma_apply_txs_split(b1, s.drop_first(), i - 1);
            },
            Err(_) => {},
        }
    }
}

proof fn lemma_apply_txs_snoc(b: Map<Seq<u8>, u64>, s: Seq<Transaction>, t: Transaction)
    ensures
        apply_txs(b, s.push(t)) == match apply_txs(b, s) {
            Ok(bi) => apply_one(bi, t),
            Err(e) => Err(e),
        },
    decreases s.len(),
{
    if s.len() == 0 {
        assert(s.push(t)[0] == t);
        assert(s.push(t).drop_first() =~= Seq::<Transaction>::empty());
        match apply_one(b, t) {
            Ok(b1) => {
                assert(apply_txs(b1, Seq::<Transaction>::empty()) == Ok::<_, LedgerError>(b1));
            },
            Err(_) => {},
        }
    } else {
        assert(s.push(t)[0] == s[0]);
        assert(s.push(t).drop_first() =~= s.drop_first().push(t));
        match apply_one(b, s[0]) {
            Ok(b1) => {
                lemma_apply_txs_snoc(b1, s.drop_first(), t);
            },
            Err(_) => {},
        }
    }
}


/// Two balance maps equal at every key denote the same total map.
proof fn lemma_bal_map_eq(a: BalanceMap, b: BalanceMap)
    requires
        forall|k: Seq<u8>| a.spec_get(k) == b.spec_get(k),
    ensures
        bal_map(a) == bal_map(b),
{
    assert forall|k: Seq<u8>| bal_map(a)[k] == bal_map(b)[k] by {
        assert(a.spec_get(k) == b.spec_get(k));
    }
    assert(bal_map(a) =~= bal_map(b));
}

/// A single-key update of a balance map denotes an `insert` on its total map.
proof fn lemma_bal_map_set(pre: BalanceMap, post: BalanceMap, k: Seq<u8>, v: u64)
    requires
        post.spec_get(k) == v,
        forall|k2: Seq<u8>| k2 != k ==> post.spec_get(k2) == pre.spec_get(k2),
    ensures
        bal_map(post) == bal_map(pre).insert(k, v),
{
    assert forall|k2: Seq<u8>| bal_map(post)[k2] == bal_map(pre).insert(k, v)[k2] by {
        if k2 == k {
            assert(post.spec_get(k2) == v);
        } else {
            assert(post.spec_get(k2) == pre.spec_get(k2));
        }
    }
    assert(bal_map(post) =~= bal_map(pre).insert(k, v));
}

/// The two-sided ledger.
pub struct Ledger {
    pub balances: BalanceMap,
    pub grok_balances: BalanceMap,
}

impl Ledger {
    /// A fresh ledger: every balance on both sides is 0.
    pub fn new() -> (r: Ledger)
        ensures
            forall|k: Seq<u8>| bal_map(r.balances)[k] == 0u64,
            forall|k: Seq<u8>| bal_map(r.grok_balances)[k] == 0u64,
    {
        let r = Ledger { balances: BalanceMap::new(), grok_balances: BalanceMap::new() };
        proof {
            assert forall|k: Seq<u8>| bal_map(r.balances)[k] == 0u64 by {
                assert(r.balances.spec_get(k) == 0u64);
            }
            assert forall|k: Seq<u8>| bal_map(r.grok_balances)[k] == 0u64 by {
                assert(r.grok_balances.spec_get(k) == 0u64);
            }
        }
        r
    }

    /// The transactional balance of an account; 0 when never seen.
    pub fn balance_of(&self, account: &[u8]) -> (r: u64)
        ensures
            r == bal_map(self.balances)[account@],
    {
        let r = self.balances.get(account);
        proof {
            assert(bal_map(self.balances)[account@] == self.balances.spec_get(account@));
        }
        r
    }

    /// The native-asset balance of an account; 0 when never seen.
    pub fn grok_balance_of(&self, account: &[u8]) -> (r: u64)
        ensures
            r == bal_map(self.grok_balances)[account@],
    {
        let r = self.grok_balances.get(account);
        proof {
            assert(bal_map(self.grok_balances)[account@] == self.grok_balances.spec_get(account@));
        }
        r
    }

    /// Applies a block's transfers, then credits the fees and the mining
    /// reward, atomically: on any failure no balance on either side changes.
    pub fn apply_block(
        &mut self,
        fees_recipient: &[u8],
        reward_recipient: &[u8],
        txs: &Vec<Transaction>,
        fees: u64,
        reward: u64,
    ) -> (r: Result<(), LedgerError>)
        ensures
            match r {
                Ok(_) => apply_block_spec(
                    bal_map(old(self).balances),
                    bal_map(old(self).grok_balances),
                    txs@,
                    fees_recipient@,
                    reward_recipient@,
                    fees,
                    reward,
                ) == Ok::<_, LedgerError>(
                    (bal_map(final(self).balances), bal_map(final(self).grok_balances)),
                ),
                Err(e) => *final(self) == *old(self) && apply_block_spec(
                    bal_map(old(self).balances),
                    bal_map(old(self).grok_balances),
                    txs@,
                    fees_recipient@,
                    reward_recipient@,
                    fees,
                    reward,
                ) == Err::<(Map<Seq<u8>, u64>, Map<Seq<u8>, u64>), _>(e),
            },
    {
        let ghost b0 = bal_map(old(self).balances);
        let ghost g0 = bal_map(old(self).grok_balances);
        let mut scratch = self.balances.duplicate();
        proof {
            lemma_bal_map_eq(scratch, old(self).balances);
            assert(txs@.take(0) =~= Seq::<Transaction>::empty());
        }
        let mut i: usize = 0;
        while i < txs.len()
            invariant
                i <= txs@.len(),
                apply_txs(b0, txs@.take(i as int)) == Ok::<_, LedgerError>(bal_map(scratch)),
                *self == *old(self),
                b0 == bal_map(old(self).balances),
                g0 == bal_map(old(self).grok_balances),
            decreases txs@.len() - i,
        {
            let ghost pre = bal_map(scratch);
            let ghost pre_bm = scratch;
            let sender_bal = scratch.get(txs[i].sender.as_slice());
            proof {
                assert(pre[txs@[i as int].sender@] == pre_bm.spec_get(txs@[i as int].sender@));
            }
            if sender_bal < txs[i].amount {
                proof {
                    lemma_apply_txs_split(b0, txs@, i as int);
                    assert(txs@.skip(i as int)[0] == txs@[i as int]);
                    assert(apply_one(pre, txs@[i as int])
                        == Err::<Map<Seq<u8>, u64>, _>(LedgerError::InsufficientFunds));
                }
                return Err(LedgerError::InsufficientFunds);
            }
            scratch.set(txs[i].sender.as_slice(), sender_bal - txs[i].amount);
            proof {
                lemma_bal_map_set(
                    pre_bm,
                    scratch,
                    txs@[i as int].sender@,
                    (sender_bal - txs@[i as int].amount) as u64,
                );
            }
            let ghost mid_bm = scratch;
            let recv_bal = scratch.get(txs[i].receiver.as_slice());
            proof {
                assert(bal_map(mid_bm)[txs@[i as int].receiver@]
                    == mid_bm.spec_get(txs@[i as int].receiver@));
            }
            if txs[i].amount > u64::MAX - recv_bal {
                proof {
                    lemma_apply_txs_split(b0, txs@, i as int);
                    assert(txs@.skip(i as int)[0] == txs@[i as int]);
                    assert(apply_one(pre, txs@[i as int])
                        == Err::<Map<Seq<u8>, u64>, _>(LedgerError::BalanceOverflow));
                }
                return Err(LedgerError::BalanceOverflow);
            }
            scratch.set(txs[i].receiver.as_slice(), recv_bal + txs[i].amount);
            proof {
                lemma_bal_map_set(
                    mid_bm,
                    scratch,
                    txs@[i as int].receiver@,
                    (recv_bal + txs@[i as int].amount) as u64,
                );
                assert(apply_one(pre, txs@[i as int]) == Ok::<_, LedgerError>(bal_map(scratch)));
                lemma_apply_txs_snoc(b0, txs@.take(i as int), txs@[i as int]);
                assert(txs@.take(i + 1) =~= txs@.take(i as int).push(txs@[i as int]));
            }
            i = i + 1;
        }
        proof {
            assert(txs@.take(txs@.len() as int) =~= txs@);
        }
        let mut gscratch = self.grok_balances.duplicate();
        proof {
            lemma_bal_map_eq(gscratch, old(self).grok_balances);
        }
        let ghost g_bm0 = gscratch;
        let fee_bal = gscratch.get(fees_recipient);
        proof {
            assert(g0[fees_recipient@] == g_bm0.spec_get(fees_recipient@));
        }
        if fees > u64::MAX - fee_bal {
            return Err(LedgerError::BalanceOverflow);
        }
        gscratch.set(fees_recipient, fee_bal + fees);
        proof {
            lemma_bal_map_set(g_bm0, gscratch, fees_recipient@, (fee_bal + fees) as u64);
        }
        let ghost g_bm1 = gscratch;
        let reward_bal = gscratch.get(reward_recipient);
        proof {
            assert(bal_map(g_bm1)[reward_recipient@] == g_bm1.spec_get(reward_recipient@));
        }
        if reward > u64::MAX - reward_bal {
            return Err(LedgerError::BalanceOverflow);
        }
        gscratch.set(reward_recipient, reward_bal + reward);
        proof {
            lemma_bal_map_set(g_bm1, gscratch, reward_recipient@, (reward_bal + reward) as u64);
        }
        self.balances = scratch;
        self.grok_balances = gscratch;
        Ok(())
    }
}

} // verus!
