//! The node: the chain head, the pending pool, the ledger, the
//! proof-of-history sequencer and the admission gate, with the two entry
//! points a transport layer calls (`submit_transaction`, `submit_block`) and
//! the block assembler.

use vstd::prelude::*;
use crate::admission::{
    check_spec, failed_of, find_rec, timestamps_of, unban_of, AdmissionControl, AdmissionError,
    BAN_DURATION, FAIL_THRESHOLD,
};
use crate::block::{
    all_txs_valid, block_hash_of, fees_of, has_duplicate, hash_meets_difficulty,
    lemma_assembled_block_validates, lemma_validate_wrong_head, mine, validate, validate_spec,
    Block, Transaction, ValidationError, compute_fees, tx_valid, verify_transaction,
    BLOCK_REWARD, MAX_TXS_PER_BLOCK,
};
use crate::encoding::clone_bytes;
use crate::ledger::{apply_block_spec, bal_map, Ledger, LedgerError};
use crate::poh::{poh_step, poh_seed_input, PohSequencer};
use crate::crypto::sha256_of;

verus! {

/// The difficulty every block must meet, in leading zero bits.
pub const INITIAL_DIFFICULTY: u32 = 4;

/// Why a submission was rejected.
#[derive(Debug, PartialEq, Eq, Structural, Clone, Copy)]
pub enum SubmitError {
    Banned,
    RateLimited,
    SignatureInvalid,
    ChainLinkMismatch,
    BlockTooLarge,
    DuplicateTransaction,
    FeeMismatch,
    InsufficientFunds,
    BalanceOverflow,
}

/// How a block-validation failure is reported to the submitter.
pub open spec fn map_validation_error(e: ValidationError) -> SubmitError {
    match e {
        ValidationError::ChainLinkMismatch => SubmitError::ChainLinkMismatch,
        ValidationError::BlockTooLarge => SubmitError::BlockTooLarge,
        ValidationError::SignatureInvalid => SubmitError::SignatureInvalid,
        ValidationError::DuplicateTransaction => SubmitError::DuplicateTransaction,
        ValidationError::FeeMismatch => SubmitError::FeeMismatch,
    }
}

/// How a ledger failure is reported to the submitter.
pub open spec fn map_ledger_error(e: LedgerError) -> SubmitError {
    match e {
        LedgerError::InsufficientFunds => SubmitError::InsufficientFunds,
        LedgerError::BalanceOverflow => SubmitError::BalanceOverflow,
    }
}

/// The fixed placeholder hash of the genesis block: 32 zero bytes.
pub open spec fn genesis_hash() -> Seq<u8> {
    Seq::new(32, |i: int| 0u8)
}

/// Builds the genesis hash.
pub fn make_genesis_hash() -> (r: Vec<u8>)
    ensures
        r@ == genesis_hash(),
{
    let mut out: Vec<u8> = Vec::new();
    let mut i: usize = 0;
    while i < 32
        invariant
            i <= 32,
            out@.len() == i,
            forall|j: int| 0 <= j < i ==> out@[j] == 0u8,
        decreases 32 - i,
    {
        out.push(0u8);
        i = i + 1;
    }
    assert(out@ =~= genesis_hash());
    out
}

/// The distinguished zero-index block: no transactions, the fixed placeholder
/// hash, the boot difficulty.
pub fn genesis_block() -> (b: Block)
    ensures
        b.prev_hash@ == Seq::<u8>::empty(),
        b.transactions@ == Seq::<Transaction>::empty(),
        b.timestamp == 0,
        b.nonce == 0,
        b.hash@ == genesis_hash(),
        b.difficulty == INITIAL_DIFFICULTY,
        b.miner_identity@ == Seq::<u8>::empty(),
        b.poh_index == 0,
        b.fees == 0,
{
    Block {
        prev_hash: Vec::new(),
        transactions: Vec::new(),
        timestamp: 0,
        nonce: 0,
        hash: make_genesis_hash(),
        difficulty: INITIAL_DIFFICULTY,
        miner_identity: Vec::new(),
        poh_index: 0,
        fees: 0,
    }
}

/// After a penalized failure: the failure count rose by one, or on reaching
/// the threshold the identity was banned for exactly `BAN_DURATION` and the
/// count reset.
pub open spec fn penalty_recorded(
    pre: Seq<crate::admission::IdentityRecord>,
    post: Seq<crate::admission::IdentityRecord>,
    k: Seq<u8>,
    now: u64,
) -> bool {
    if failed_of(pre, k) + 1 >= FAIL_THRESHOLD {
        failed_of(post, k) == 0 && unban_of(post, k) == now + BAN_DURATION
    } else {
        failed_of(post, k) == failed_of(pre, k) + 1 && unban_of(post, k) == unban_of(pre, k)
    }
}

/// How many pending transactions the assembler drains: all of them, up to
/// the block capacity.
pub open spec fn batch_size(pool_len: int) -> int {
    if pool_len <= MAX_TXS_PER_BLOCK as int {
        pool_len
    } else {
        MAX_TXS_PER_BLOCK as int
    }
}

proof fn lemma_all_txs_valid_split(s: Seq<Transaction>, k: int)
    requires
        all_txs_valid(s),
        0 <= k <= s.len(),
    ensures
        all_txs_valid(s.take(k)),
        all_txs_valid(s.skip(k)),
{
    assert forall|i: int| 0 <= i < s.take(k).len() implies tx_valid(#[trigger] s.take(k)[i]) by {
        assert(s.take(k)[i] == s[i]);
    }
    assert forall|i: int| 0 <= i < s.skip(k).len() implies tx_valid(#[trigger] s.skip(k)[i]) by {
        assert(s.skip(k)[i] == s[i + k]);
    }
}

proof fn lemma_all_txs_valid_push(s: Seq<Transaction>, t: Transaction)
    requires
        all_txs_valid(s),
        tx_valid(t),
    ensures
        all_txs_valid(s.push(t)),
{
    assert forall|i: int| 0 <= i < s.push(t).len() implies tx_valid(#[trigger] s.push(t)[i]) by {
        if i < s.len() {
            assert(s.push(t)[i] == s[i]);
        } else {
            assert(s.push(t)[i] == t);
        }
    }
}

/// What a successful assembly guarantees of the block and the node: the
/// block drains the oldest pending transactions, links to the unchanged
/// head, owns the tick the sequencer just appended, commits to its contents
/// through its hash, meets the difficulty, and carries the exact fee.
pub open spec fn assembled_from(pre: Node, post: Node, b: Block, timestamp: u64) -> bool {
    let k = batch_size(pre.pending@.len() as int);
    &&& b.transactions@ == pre.pending@.take(k)
    &&& post.pending@ == pre.pending@.skip(k)
    &&& b.prev_hash@ == pre.head_hash@
    &&& b.timestamp == timestamp
    &&& b.difficulty == pre.difficulty
    &&& b.poh_index == pre.poh.model().len()
    &&& post.poh.model() == poh_step(pre.poh.model(), pre.head_hash@)
    &&& post.head_hash == pre.head_hash
    &&& post.head_poh_index == pre.head_poh_index
    &&& b.hash@ == block_hash_of(
        b.prev_hash@,
        b.transactions@,
        b.timestamp,
        b.nonce,
        b.poh_index as u64,
    )
    &&& hash_meets_difficulty(b.hash@, b.difficulty)
    &&& b.fees == fees_of(b.transactions@)
}

/// Law: a freshly assembled block re-validates exactly against the node
/// that assembled it — provided its transactions share no (sender, id)
/// pair, which the pool does not rule out — and fails with
/// `ChainLinkMismatch` against any other head hash.
pub proof fn lemma_assembly_revalidates(
    pre: Node,
    post: Node,
    b: Block,
    timestamp: u64,
    other_head: Seq<u8>,
)
    requires
        pre.wf(),
        pre.poh.model().len() < usize::MAX,
        assembled_from(pre, post, b, timestamp),
        !has_duplicate(b.transactions@),
    ensures
        validate_spec(
            b,
            post.head_hash@,
            post.head_poh_index,
            (post.poh.model().len() - 1) as usize,
        ) == Ok::<(), ValidationError>(()),
        other_head != b.prev_hash@ ==> validate_spec(
            b,
            other_head,
            post.head_poh_index,
            (post.poh.model().len() - 1) as usize,
        ) == Err::<(), ValidationError>(ValidationError::ChainLinkMismatch),
{
    let k = batch_size(pre.pending@.len() as int);
    lemma_all_txs_valid_split(pre.pending@, k);
    assert(post.poh.model().len() == pre.poh.model().len() + 1);
    lemma_assembled_block_validates(
        b,
        post.head_hash@,
        post.head_poh_index,
        (post.poh.model().len() - 1) as usize,
    );
    if other_head != b.prev_hash@ {
        lemma_validate_wrong_head(
            b,
            other_head,
            post.head_poh_index,
            (post.poh.model().len() - 1) as usize,
        );
    }
}

/// The whole simulator state.
pub struct Node {
    pub ledger: Ledger,
    pub poh: PohSequencer,
    pub admission: AdmissionControl,
    pub pending: Vec<Transaction>,
    pub head_hash: Vec<u8>,
    pub head_poh_index: usize,
    pub block_count: u64,
    pub difficulty: u32,
    pub fee_account: Vec<u8>,
}

impl Node {
    /// The node's structural invariant: the sequencer holds its seed, every
    /// pooled transaction is valid, and the head's proof-of-history index
    /// names a tick that exists (it is below the sequencer's entry count).
    pub open spec fn wf(self) -> bool {
        &&& self.poh.wf()
        &&& all_txs_valid(self.pending@)
        &&& (self.head_poh_index as int) < self.poh.model().len()
    }

    /// A fresh node at genesis: empty ledgers, the seeded sequencer, an empty
    /// pool, the genesis head, and one (the genesis) block counted.
    pub fn new(fee_account: Vec<u8>) -> (r: Node)
        ensures
            r.wf(),
            forall|k: Seq<u8>| bal_map(r.ledger.balances)[k] == 0u64,
            forall|k: Seq<u8>| bal_map(r.ledger.grok_balances)[k] == 0u64,
            r.poh.model() == seq![sha256_of(poh_seed_input())],
            forall|k: Seq<u8>| find_rec(r.admission.records@, k) is None,
            r.pending@ == Seq::<Transaction>::empty(),
            r.head_hash@ == genesis_hash(),
            r.head_poh_index == 0,
            r.block_count == 1,
            r.difficulty == INITIAL_DIFFICULTY,
            r.fee_account == fee_account,
    {
        Node {
            ledger: Ledger::new(),
            poh: PohSequencer::new(),
            admission: AdmissionControl::new(),
            pending: Vec::new(),
            head_hash: make_genesis_hash(),
            head_poh_index: 0,
            block_count: 1,
            difficulty: INITIAL_DIFFICULTY,
            fee_account,
        }
    }

    /// Admits a transaction into the pending pool: the submitter must pass
    /// the admission gate, and the transaction must be well formed and
    /// correctly signed. A signature failure is penalized against the
    /// submitter; an admission rejection is itself the penalty and has no
    /// side effect.
    pub fn submit_transaction(&mut self, tx: Transaction, identity: &[u8], now: u64) -> (r:
        Result<(), SubmitError>)
        requires
            old(self).wf(),
            now + BAN_DURATION <= u64::MAX,
        ensures
            final(self).wf(),
            ({
                let adm = check_spec(old(self).admission.records@, identity@, now);
                &&& (adm == Err::<(), AdmissionError>(AdmissionError::Banned)
                    ==> r == Err::<(), SubmitError>(SubmitError::Banned)
                        && *final(self) == *old(self))
                &&& (adm == Err::<(), AdmissionError>(AdmissionError::RateLimited)
                    ==> r == Err::<(), SubmitError>(SubmitError::RateLimited)
                        && *final(self) == *old(self))
                &&& (adm is Ok ==> {
                    &&& timestamps_of(final(self).admission.records@, identity@)
                        == timestamps_of(old(self).admission.records@, identity@).push(now)
                    &&& forall|k2: Seq<u8>| k2 != identity@
                        ==> find_rec(final(self).admission.records@, k2)
                            == find_rec(old(self).admission.records@, k2)
                    &&& final(self).ledger == old(self).ledger
                    &&& final(self).poh == old(self).poh
                    &&& final(self).head_hash == old(self).head_hash
                    &&& final(self).head_poh_index == old(self).head_poh_index
                    &&& final(self).block_count == old(self).block_count
                    &&& final(self).difficulty == old(self).difficulty
                    &&& final(self).fee_account == old(self).fee_account
                    &&& (tx_valid(tx)
                        ==> r == Ok::<(), SubmitError>(())
                            && final(self).pending@ == old(self).pending@.push(tx)
                            && failed_of(final(self).admission.records@, identity@) == 0
                            && unban_of(final(self).admission.records@, identity@)
                                == unban_of(old(self).admission.records@, identity@))
                    &&& (!tx_valid(tx)
                        ==> r == Err::<(), SubmitError>(SubmitError::SignatureInvalid)
                            && final(self).pending == old(self).pending
                            && penalty_recorded(
                                old(self).admission.records@,
                                final(self).admission.records@,
                                identity@,
                                now,
                            ))
                })
            }),
    {
        match self.admission.check_submission(identity, now) {
            Err(AdmissionError::Banned) => Err(SubmitError::Banned),
            Err(AdmissionError::RateLimited) => Err(SubmitError::RateLimited),
            Ok(()) => {
                if verify_transaction(&tx) {
                    proof {
                        lemma_all_txs_valid_push(self.pending@, tx);
                    }
                    self.pending.push(tx);
                    self.admission.record_success(identity);
                    Ok(())
                } else {
                    self.admission.record_failure(identity, now);
                    Err(SubmitError::SignatureInvalid)
                }
            },
        }
    }

    /// Assembles and mines a candidate block: it drains up to
    /// `MAX_TXS_PER_BLOCK` pending transactions oldest-first, computes the
    /// fee, reserves a proof-of-history tick (mixed from the chain head), and
    /// searches a nonce meeting the difficulty. `None` comes only when the
    /// floored fee of the drained batch does not fit in a `u64`, or no 64-bit
    /// nonce meets the difficulty; the pool is then restored, but a reserved
    /// tick is never reclaimed. A pool holding the same (sender, id) twice
    /// can assemble a block that validation later rejects as a duplicate.
    pub fn assemble_block(&mut self, miner: &[u8], timestamp: u64) -> (r: Option<Block>)
        requires
            old(self).wf(),
            old(self).poh.model().len() < usize::MAX,
        ensures
            final(self).wf(),
            final(self).ledger == old(self).ledger,
            final(self).admission == old(self).admission,
            final(self).head_hash == old(self).head_hash,
            final(self).head_poh_index == old(self).head_poh_index,
            final(self).block_count == old(self).block_count,
            final(self).difficulty == old(self).difficulty,
            final(self).fee_account == old(self).fee_account,
            ({
                let k = batch_size(old(self).pending@.len() as int);
                match r {
                    Some(b) => {
                        &&& assembled_from(*old(self), *final(self), b, timestamp)
                        &&& b.miner_identity@ == miner@
                    },
                    None => {
                        &&& final(self).pending@ == old(self).pending@
                        &&& ((final(self).poh == old(self).poh && fees_of(
                            old(self).pending@.take(k),
                        ) > u64::MAX) || (final(self).poh.model() == poh_step(
                            old(self).poh.model(),
                            old(self).head_hash@,
                        ) && forall|n: u64|
                            !#[trigger] hash_meets_difficulty(
                                block_hash_of(
                                    old(self).head_hash@,
                                    old(self).pending@.take(k),
                                    timestamp,
                                    n,
                                    old(self).poh.model().len() as u64,
                                ),
                                old(self).difficulty,
                            )))
                    },
                }
            }),
    {
        let k = if self.pending.len() <= MAX_TXS_PER_BLOCK {
            self.pending.len()
        } else {
            MAX_TXS_PER_BLOCK
        };
        let mut batch = self.pending.split_off(k);
        core::mem::swap(&mut self.pending, &mut batch);
        let fees = match compute_fees(&batch) {
            Some(f) => f,
            None => {
                batch.append(&mut self.pending);
                core::mem::swap(&mut self.pending, &mut batch);
                proof {
                    assert(self.pending@ =~= old(self).pending@);
                }
                return None;
            },
        };
        let prev_hash = clone_bytes(self.head_hash.as_slice());
        let (poh_index, _mix) = self.poh.tick(prev_hash.as_slice());
        match mine(prev_hash.as_slice(), &batch, timestamp, poh_index as u64, self.difficulty) {
            Some((nonce, hash)) => {
                Some(Block {
                    prev_hash,
                    transactions: batch,
                    timestamp,
                    nonce,
                    hash,
                    difficulty: self.difficulty,
                    miner_identity: clone_bytes(miner),
                    poh_index,
                    fees,
                })
            },
            None => {
                batch.append(&mut self.pending);
                core::mem::swap(&mut self.pending, &mut batch);
                proof {
                    assert(self.pending@ =~= old(self).pending@);
                }
                None
            },
        }
    }

    /// Validates a block against the chain head and commits it: the
    /// transfers, the fee and the mining reward are applied atomically, then
    /// the head advances. The sequencer bound handed to validation is the
    /// number of ticks performed (the largest index any tick has returned).
    /// Validation and ledger failures are penalized against the submitter;
    /// admission rejections have no side effect.
    pub fn submit_block(&mut self, block: &Block, identity: &[u8], now: u64) -> (r: Result<
        (),
        SubmitError,
    >)
        requires
            old(self).wf(),
            now + BAN_DURATION <= u64::MAX,
            old(self).block_count < u64::MAX,
        ensures
            final(self).wf(),
            final(self).poh == old(self).poh,
            final(self).pending == old(self).pending,
            final(self).difficulty == old(self).difficulty,
            final(self).fee_account == old(self).fee_account,
            ({
                let adm = check_spec(old(self).admission.records@, identity@, now);
                let v = validate_spec(
                    *block,
                    old(self).head_hash@,
                    old(self).head_poh_index,
                    (old(self).poh.model().len() - 1) as usize,
                );
                let ap = apply_block_spec(
                    bal_map(old(self).ledger.balances),
                    bal_map(old(self).ledger.grok_balances),
                    block.transactions@,
                    old(self).fee_account@,
                    block.miner_identity@,
                    block.fees,
                    BLOCK_REWARD,
                );
                &&& (adm == Err::<(), AdmissionError>(AdmissionError::Banned)
                    ==> r == Err::<(), SubmitError>(SubmitError::Banned)
                        && *final(self) == *old(self))
                &&& (adm == Err::<(), AdmissionError>(AdmissionError::RateLimited)
                    ==> r == Err::<(), SubmitError>(SubmitError::RateLimited)
                        && *final(self) == *old(self))
                &&& (adm is Ok ==> {
                    &&& timestamps_of(final(self).admission.records@, identity@)
                        == timestamps_of(old(self).admission.records@, identity@).push(now)
                    &&& forall|k2: Seq<u8>| k2 != identity@
                        ==> find_rec(final(self).admission.records@, k2)
                            == find_rec(old(self).admission.records@, k2)
                    &&& (v matches Err(ve) ==> {
                        &&& r == Err::<(), SubmitError>(map_validation_error(ve))
                        &&& final(self).ledger == old(self).ledger
                        &&& final(self).head_hash == old(self).head_hash
                        &&& final(self).head_poh_index == old(self).head_poh_index
                        &&& final(self).block_count == old(self).block_count
                        &&& penalty_recorded(
                            old(self).admission.records@,
                            final(self).admission.records@,
                            identity@,
                            now,
                        )
                    })
                    &&& (v is Ok ==> {
                        &&& (ap matches Err(le) ==> {
                            &&& r == Err::<(), SubmitError>(map_ledger_error(le))
                            &&& final(self).ledger == old(self).ledger
                            &&& final(self).head_hash == old(self).head_hash
                            &&& final(self).head_poh_index == old(self).head_poh_index
                            &&& final(self).block_count == old(self).block_count
                            &&& penalty_recorded(
                                old(self).admission.records@,
                                final(self).admission.records@,
                                identity@,
                                now,
                            )
                        })
                        &&& (ap matches Ok(p) ==> {
                            &&& r == Ok::<(), SubmitError>(())
                            &&& bal_map(final(self).ledger.balances) == p.0
                            &&& bal_map(final(self).ledger.grok_balances) == p.1
                            &&& final(self).head_hash@ == block.hash@
                            &&& final(self).head_poh_index == block.poh_index
                            &&& final(self).block_count == old(self).block_count + 1
                            &&& failed_of(final(self).admission.records@, identity@) == 0
                            &&& unban_of(final(self).admission.records@, identity@)
                                == unban_of(old(self).admission.records@, identity@)
                        })
                    })
                })
            }),
    {
        match self.admission.check_submission(identity, now) {
            Err(AdmissionError::Banned) => {
                return Err(SubmitError::Banned);
            },
            Err(AdmissionError::RateLimited) => {
                return Err(SubmitError::RateLimited);
            },
            Ok(()) => {},
        }
        let poh_ticks = self.poh.len() - 1;
        match validate(block, self.head_hash.as_slice(), self.head_poh_index, poh_ticks) {
            Ok(()) => {},
            Err(e) => {
                self.admission.record_failure(identity, now);
                return Err(match e {
                    ValidationError::ChainLinkMismatch => SubmitError::ChainLinkMismatch,
                    ValidationError::BlockTooLarge => SubmitError::BlockTooLarge,
                    ValidationError::SignatureInvalid => SubmitError::SignatureInvalid,
                    ValidationError::DuplicateTransaction => SubmitError::DuplicateTransaction,
                    ValidationError::FeeMismatch => SubmitError::FeeMismatch,
                });
            },
        }
        let apply_result = self.ledger.apply_block(
            self.fee_account.as_slice(),
            block.miner_identity.as_slice(),
            &block.transactions,
            block.fees,
            BLOCK_REWARD,
        );
        match apply_result {
            Ok(()) => {},
            Err(e) => {
                self.admission.record_failure(identity, now);
                return Err(match e {
                    LedgerError::InsufficientFunds => SubmitError::InsufficientFunds,
                    LedgerError::BalanceOverflow => SubmitError::BalanceOverflow,
                });
            },
        }
        self.head_hash = clone_bytes(block.hash.as_slice());
        self.head_poh_index = block.poh_index;
        self.block_count = self.block_count + 1;
        self.admission.record_success(identity);
        Ok(())
    }
}

} // verus!