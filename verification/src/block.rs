//! Transactions and blocks: canonical payloads, signature checks, the
//! leading-zero-bit difficulty target, proof-of-work mining, fee computation,
//! and full block validation.

use vstd::prelude::*;
use crate::crypto::{
    blake3_hash, blake3_of, ed25519_public_key, ed25519_public_of, ed25519_sign, ed25519_sign_of,
    ed25519_verifies, ed25519_verify,
};
use crate::encoding::{bytes_eq, clone_bytes, enc_bytes, encode_bytes, encode_u64, u64_le};

verus! {

/// The most transactions a block may carry.
pub const MAX_TXS_PER_BLOCK: usize = 1000;

/// The fixed mining reward per block, in native units.
pub const BLOCK_REWARD: u64 = 10;

/// Fees are 1% of the transferred amount, floored: `total / FEE_DIVISOR`.
pub const FEE_DIVISOR: u64 = 100;

/// A signed transfer. The signature covers the canonical payload of
/// `(sender, receiver, amount, id)` under the sender's Ed25519 key, so the
/// sender identifier is the sender's 32-byte public key.
pub struct Transaction {
    pub sender: Vec<u8>,
    pub receiver: Vec<u8>,
    pub amount: u64,
    pub id: u64,
    pub signature: Vec<u8>,
}

/// The canonical bytes a transaction's signature covers.
pub open spec fn tx_payload(t: Transaction) -> Seq<u8> {
    enc_bytes(t.sender@) + enc_bytes(t.receiver@) + u64_le(t.amount) + u64_le(t.id)
}

/// Whether the signature verifies the canonical payload under the sender key.
pub open spec fn tx_sig_ok(t: Transaction) -> bool {
    ed25519_verifies(t.sender@, tx_payload(t), t.signature@)
}

/// The structural transaction invariant: a positive amount between two
/// distinct accounts.
pub open spec fn tx_structure_ok(t: Transaction) -> bool {
    t.amount > 0 && t.sender@ != t.receiver@
}

/// A transaction the chain accepts: well-formed and correctly signed.
pub open spec fn tx_valid(t: Transaction) -> bool {
    tx_structure_ok(t) && tx_sig_ok(t)
}

/// Builds the canonical signing payload of a transaction.
pub fn encode_tx_payload(t: &Transaction) -> (r: Vec<u8>)
    ensures
        r@ == tx_payload(*t),
{
    let mut out: Vec<u8> = Vec::new();
    encode_bytes(&mut out, t.sender.as_slice());
    encode_bytes(&mut out, t.receiver.as_slice());
    encode_u64(&mut out, t.amount);
    encode_u64(&mut out, t.id);
    assert(out@ =~= tx_payload(*t));
    out
}

/// Checks a transaction: structure and signature.
pub fn verify_transaction(t: &Transaction) -> (r: bool)
    ensures
        r == tx_valid(*t),
{
    if t.amount == 0 {
        return false;
    }
    if bytes_eq(t.sender.as_slice(), t.receiver.as_slice()) {
        return false;
    }
    let payload = encode_tx_payload(t);
    ed25519_verify(t.sender.as_slice(), payload.as_slice(), t.signature.as_slice())
}

/// Creates and signs a transfer from the holder of `sk` to `receiver`. The
/// sender identifier is the public key of `sk`, so the result verifies.
pub fn signed_transaction(sk: &[u8], receiver: &[u8], amount: u64, id: u64) -> (t: Transaction)
    requires
        sk@.len() == 32,
    ensures
        t.sender@ == ed25519_public_of(sk@),
        t.receiver@ == receiver@,
        t.amount == amount,
        t.id == id,
        t.signature@ == ed25519_sign_of(sk@, tx_payload(t)),
        tx_sig_ok(t),
{
    let sender = ed25519_public_key(sk);
    let t = Transaction {
        sender,
        receiver: clone_bytes(receiver),
        amount,
        id,
        signature: Vec::new(),
    };
    let payload = encode_tx_payload(&t);
    let signature = ed25519_sign(sk, payload.as_slice());
    let t2 = Transaction { signature, ..t };
    assert(tx_payload(t2) == tx_payload(t));
    t2
}

/// The sum of all transferred amounts in a batch.
pub open spec fn total_amount(txs: Seq<Transaction>) -> int
    decreases txs.len(),
{
    if txs.len() == 0 {
        0
    } else {
        txs[0].amount + total_amount(txs.drop_first())
    }
}

/// The fee a batch owes: 1% of the transferred total, floored.
pub open spec fn fees_of(txs: Seq<Transaction>) -> int {
    total_amount(txs) / (FEE_DIVISOR as int)
}

proof fn lemma_total_amount_snoc(s: Seq<Transaction>, t: Transaction)
    ensures
        total_amount(s.push(t)) == total_amount(s) + t.amount,
    decreases s.len(),
{
    if s.len() == 0 {
        assert(s.push(t).drop_first() =~= s);
    } else {
        assert(s.push(t).drop_first() =~= s.drop_first().push(t));
        lemma_total_amount_snoc(s.drop_first(), t);
    }
}

/// Computes the fee of a batch; `None` when the floored fee does not fit in
/// a `u64`.
pub fn compute_fees(txs: &Vec<Transaction>) -> (r: Option<u64>)
    ensures
        match r {
            Some(f) => f == fees_of(txs@),
            None => fees_of(txs@) > u64::MAX,
        },
{
    let mut sum: u128 = 0;
    let mut i: usize = 0;
    proof {
        assert(txs@.take(0) =~= Seq::<Transaction>::empty());
    }
    while i < txs.len()
        invariant
            i <= txs@.len(),
            sum == total_amount(txs@.take(i as int)),
            sum <= (i as int) * (u64::MAX as int),
        decreases txs@.len() - i,
    {
        proof {
            assert((i as int) * (u64::MAX as int) <= (usize::MAX as int) * (u64::MAX as int))
                by (nonlinear_arith)
                requires 0 <= i as int <= usize::MAX as int;
            assert((usize::MAX as int) * (u64::MAX as int) < u128::MAX as int)
                by (nonlinear_arith);
            assert(txs@.take(i + 1) =~= txs@.take(i as int).push(txs@[i as int]));
            lemma_total_amount_snoc(txs@.take(i as int), txs@[i as int]);
            assert((i as int) * (u64::MAX as int) + (u64::MAX as int)
                == ((i + 1) as int) * (u64::MAX as int)) by (nonlinear_arith);
        }
        sum = sum + (txs[i].amount as u128);
        i = i + 1;
    }
    proof {
        assert(txs@.take(txs@.len() as int) =~= txs@);
    }
    let fee = sum / (FEE_DIVISOR as u128);
    if fee > (u64::MAX as u128) {
        return None;
    }
    Some(fee as u64)
}

/// Two to a small power, for the partial-byte difficulty bound.
pub open spec fn pow2_u8(n: u32) -> int {
    if n == 0 {
        1
    } else if n == 1 {
        2
    } else if n == 2 {
        4
    } else if n == 3 {
        8
    } else if n == 4 {
        16
    } else if n == 5 {
        32
    } else if n == 6 {
        64
    } else if n == 7 {
        128
    } else {
        256
    }
}

/// A 32-byte hash meets a difficulty of `bits` leading zero bits: every full
/// leading byte is zero, and the next byte's leading `bits % 8` bits are zero
/// (it is below two to the remaining bit width).
pub open spec fn hash_meets_difficulty(h: Seq<u8>, bits: u32) -> bool {
    &&& bits <= 256
    &&& h.len() == 32
    &&& (forall|j: int| 0 <= j < (bits / 8) as int ==> h[j] == 0)
    &&& (bits % 8 == 0 || h[(bits / 8) as int] < pow2_u8((8 - bits % 8) as u32))
}

/// Checks the leading-zero-bit difficulty target on a hash.
pub fn check_difficulty(h: &[u8], bits: u32) -> (r: bool)
    ensures
        r == hash_meets_difficulty(h@, bits),
{
    if bits > 256 || h.len() != 32 {
        return false;
    }
    let full = (bits / 8) as usize;
    let mut j: usize = 0;
    while j < full
        invariant
            j <= full,
            full == (bits / 8) as usize,
            bits <= 256,
            h@.len() == 32,
            forall|k: int| 0 <= k < j ==> h@[k] == 0,
        decreases full - j,
    {
        if h[j] != 0 {
            return false;
        }
        j = j + 1;
    }
    let rem = bits % 8;
    if rem == 0 {
        return true;
    }
    let limit: u8 = if rem == 1 {
        128
    } else if rem == 2 {
        64
    } else if rem == 3 {
        32
    } else if rem == 4 {
        16
    } else if rem == 5 {
        8
    } else if rem == 6 {
        4
    } else {
        2
    };
    assert(limit == pow2_u8((8 - rem) as u32));
    h[full] < limit
}

/// A mined block. `hash` commits to the previous block's hash, the
/// transactions, the timestamp, the nonce and the proof-of-history index.
pub struct Block {
    pub prev_hash: Vec<u8>,
    pub transactions: Vec<Transaction>,
    pub timestamp: u64,
    pub nonce: u64,
    pub hash: Vec<u8>,
    pub difficulty: u32,
    pub miner_identity: Vec<u8>,
    pub poh_index: usize,
    pub fees: u64,
}

/// The canonical bytes of a transaction list: each transaction's payload
/// followed by its length-prefixed signature.
pub open spec fn txs_bytes(txs: Seq<Transaction>) -> Seq<u8>
    decreases txs.len(),
{
    if txs.len() == 0 {
        Seq::empty()
    } else {
        tx_payload(txs[0]) + enc_bytes(txs[0].signature@) + txs_bytes(txs.drop_first())
    }
}

proof fn lemma_txs_bytes_snoc(s: Seq<Transaction>, t: Transaction)
    ensures
        txs_bytes(s.push(t)) == txs_bytes(s) + tx_payload(t) + enc_bytes(t.signature@),
    decreases s.len(),
{
    if s.len() == 0 {
        assert(s.push(t).drop_first() =~= s);
        assert(txs_bytes(s.push(t)) =~= txs_bytes(s) + tx_payload(t) + enc_bytes(t.signature@));
    } else {
        assert(s.push(t).drop_first() =~= s.drop_first().push(t));
        lemma_txs_bytes_snoc(s.drop_first(), t);
        assert(txs_bytes(s.push(t)) =~= txs_bytes(s) + tx_payload(t) + enc_bytes(t.signature@));
    }
}

/// The canonical header bytes a block's hash commits to.
pub open spec fn header_bytes(
    prev_hash: Seq<u8>,
    txs: Seq<Transaction>,
    timestamp: u64,
    nonce: u64,
    poh_index: u64,
) -> Seq<u8> {
    enc_bytes(prev_hash) + u64_le(timestamp) + u64_le(nonce) + u64_le(poh_index)
        + u64_le(txs.len() as u64) + txs_bytes(txs)
}

/// The hash a block must carry: the BLAKE3 digest of its header bytes.
pub open spec fn block_hash_of(
    prev_hash: Seq<u8>,
    txs: Seq<Transaction>,
    timestamp: u64,
    nonce: u64,
    poh_index: u64,
) -> Seq<u8> {
    blake3_of(header_bytes(prev_hash, txs, timestamp, nonce, poh_index))
}

/// Builds the canonical header bytes.
pub fn encode_header(
    prev_hash: &[u8],
    txs: &Vec<Transaction>,
    timestamp: u64,
    nonce: u64,
    poh_index: u64,
) -> (r: Vec<u8>)
    ensures
        r@ == header_bytes(prev_hash@, txs@, timestamp, nonce, poh_index),
{
    let mut out: Vec<u8> = Vec::new();
    encode_bytes(&mut out, prev_hash);
    encode_u64(&mut out, timestamp);
    encode_u64(&mut out, nonce);
    encode_u64(&mut out, poh_index);
    encode_u64(&mut out, txs.len() as u64);
    let ghost base = out@;
    let mut i: usize = 0;
    proof {
        assert(txs@.take(0) =~= Seq::<Transaction>::empty());
        assert(out@ =~= base + txs_bytes(txs@.take(0)));
    }
    while i < txs.len()
        invariant
            i <= txs@.len(),
            out@ == base + txs_bytes(txs@.take(i as int)),
        decreases txs@.len() - i,
    {
        let payload = encode_tx_payload(&txs[i]);
        crate::encoding::append_bytes(&mut out, payload.as_slice());
        encode_bytes(&mut out, txs[i].signature.as_slice());
        proof {
            assert(txs@.take(i + 1) =~= txs@.take(i as int).push(txs@[i as int]));
            lemma_txs_bytes_snoc(txs@.take(i as int), txs@[i as int]);
            assert(out@ =~= base + txs_bytes(txs@.take(i + 1)));
        }
        i = i + 1;
    }
    proof {
        assert(txs@.take(txs@.len() as int) =~= txs@);
        assert(out@ =~= header_bytes(prev_hash@, txs@, timestamp, nonce, poh_index));
    }
    out
}

/// Hashes a candidate header.
pub fn compute_block_hash(
    prev_hash: &[u8],
    txs: &Vec<Transaction>,
    timestamp: u64,
    nonce: u64,
    poh_index: u64,
) -> (r: Vec<u8>)
    ensures
        r@ == block_hash_of(prev_hash@, txs@, timestamp, nonce, poh_index),
        r@.len() == 32,
{
    let header = encode_header(prev_hash, txs, timestamp, nonce, poh_index);
    blake3_hash(header.as_slice())
}

/// Proof-of-work: searches nonces from 0 upward for a hash meeting the
/// difficulty. `None` means no 64-bit nonce works for this header.
pub fn mine(
    prev_hash: &[u8],
    txs: &Vec<Transaction>,
    timestamp: u64,
    poh_index: u64,
    difficulty: u32,
) -> (r: Option<(u64, Vec<u8>)>)
    ensures
        match r {
            Some(p) => {
                &&& p.1@ == block_hash_of(prev_hash@, txs@, timestamp, p.0, poh_index)
                &&& hash_meets_difficulty(p.1@, difficulty)
            },
            None => forall|n: u64|
                !hash_meets_difficulty(
                    block_hash_of(prev_hash@, txs@, timestamp, n, poh_index),
                    difficulty,
                ),
        },
{
    let mut nonce: u64 = 0;
    loop
        invariant
            forall|n: u64| n < nonce ==> !hash_meets_difficulty(
                block_hash_of(prev_hash@, txs@, timestamp, n, poh_index),
                difficulty,
            ),
        decreases u64::MAX - nonce,
    {
        let h = compute_block_hash(prev_hash, txs, timestamp, nonce, poh_index);
        if check_difficulty(h.as_slice(), difficulty) {
            return Some((nonce, h));
        }
        if nonce == u64::MAX {
            return None;
        }
        nonce = nonce + 1;
    }
}


/// Why a block was rejected.
#[derive(Debug, PartialEq, Eq, Structural, Clone, Copy)]
pub enum ValidationError {
    /// The previous-hash link, recomputed hash, difficulty target or
    /// proof-of-history index does not fit the chain head.
    ChainLinkMismatch,
    /// The block carries more transactions than allowed.
    BlockTooLarge,
    /// Some transaction is malformed or its signature does not verify.
    SignatureInvalid,
    /// Two transactions share the same sender and id.
    DuplicateTransaction,
    /// The declared fee differs from the fee the transactions owe.
    FeeMismatch,
}

/// Every transaction in the batch is valid.
pub open spec fn all_txs_valid(txs: Seq<Transaction>) -> bool {
    forall|i: int| 0 <= i < txs.len() ==> tx_valid(#[trigger] txs[i])
}

/// Some two transactions share the same `(sender, id)` pair.
pub open spec fn has_duplicate(txs: Seq<Transaction>) -> bool {
    exists|i: int, j: int|
        0 <= i < j < txs.len() && #[trigger] txs[i].sender@ == #[trigger] txs[j].sender@
            && txs[i].id == txs[j].id
}

/// Checks every transaction in the batch.
pub fn check_all_txs(txs: &Vec<Transaction>) -> (r: bool)
    ensures
        r == all_txs_valid(txs@),
{
    let mut i: usize = 0;
    while i < txs.len()
        invariant
            i <= txs@.len(),
            forall|k: int| 0 <= k < i ==> tx_valid(#[trigger] txs@[k]),
        decreases txs@.len() - i,
    {
        if !verify_transaction(&txs[i]) {
            return false;
        }
        i = i + 1;
    }
    true
}

/// Looks for two transactions with the same sender and id.
pub fn find_duplicate(txs: &Vec<Transaction>) -> (r: bool)
    ensures
        r == has_duplicate(txs@),
{
    let mut i: usize = 0;
    while i < txs.len()
        invariant
            i <= txs@.len(),
            forall|a: int, b: int|
                0 <= a < b < txs@.len() && a < i ==> !(#[trigger] txs@[a].sender@
                    == #[trigger] txs@[b].sender@ && txs@[a].id == txs@[b].id),
        decreases txs@.len() - i,
    {
        let mut j: usize = i + 1;
        while j < txs.len()
            invariant
                i < j <= txs@.len() || (i + 1 == j && j > txs@.len() - 1 && j <= txs@.len() + 1),
                i < txs@.len(),
                forall|b: int|
                    i < b < j ==> !(txs@[i as int].sender@ == #[trigger] txs@[b].sender@
                        && txs@[i as int].id == txs@[b].id),
            decreases txs@.len() - j,
        {
            if bytes_eq(txs[i].sender.as_slice(), txs[j].sender.as_slice())
                && txs[i].id == txs[j].id {
                return true;
            }
            j = j + 1;
        }
        i = i + 1;
    }
    false
}

/// The outcome `validate` must report, checking the rules in order and
/// failing on the first violation.
pub open spec fn validate_spec(
    b: Block,
    head_hash: Seq<u8>,
    head_poh_index: usize,
    poh_len: usize,
) -> Result<(), ValidationError> {
    if b.prev_hash@ != head_hash {
        Err(ValidationError::ChainLinkMismatch)
    } else if b.hash@ != block_hash_of(
        b.prev_hash@, b.transactions@, b.timestamp, b.nonce, b.poh_index as u64,
    ) {
        Err(ValidationError::ChainLinkMismatch)
    } else if !hash_meets_difficulty(b.hash@, b.difficulty) {
        Err(ValidationError::ChainLinkMismatch)
    } else if !(b.poh_index > head_poh_index && b.poh_index <= poh_len) {
        Err(ValidationError::ChainLinkMismatch)
    } else if b.transactions@.len() > MAX_TXS_PER_BLOCK as int {
        Err(ValidationError::BlockTooLarge)
    } else if !all_txs_valid(b.transactions@) {
        Err(ValidationError::SignatureInvalid)
    } else if has_duplicate(b.transactions@) {
        Err(ValidationError::DuplicateTransaction)
    } else if b.fees != fees_of(b.transactions@) {
        Err(ValidationError::FeeMismatch)
    } else {
        Ok(())
    }
}

/// Validates a block against the chain head and the sequencer length:
/// previous-hash link, recomputed hash and difficulty, proof-of-history
/// index, transaction count, every signature, duplicates, and the fee field.
/// Checks run in order and the first violation is reported; nothing is
/// mutated.
pub fn validate(
    b: &Block,
    head_hash: &[u8],
    head_poh_index: usize,
    poh_len: usize,
) -> (r: Result<(), ValidationError>)
    ensures
        r == validate_spec(*b, head_hash@, head_poh_index, poh_len),
        r is Ok <==> validate_spec(*b, head_hash@, head_poh_index, poh_len) is Ok,
{
    if !bytes_eq(b.prev_hash.as_slice(), head_hash) {
        return Err(ValidationError::ChainLinkMismatch);
    }
    let expected = compute_block_hash(
        b.prev_hash.as_slice(),
        &b.transactions,
        b.timestamp,
        b.nonce,
        b.poh_index as u64,
    );
    if !bytes_eq(b.hash.as_slice(), expected.as_slice()) {
        return Err(ValidationError::ChainLinkMismatch);
    }
    if !check_difficulty(b.hash.as_slice(), b.difficulty) {
        return Err(ValidationError::ChainLinkMismatch);
    }
    if !(b.poh_index > head_poh_index && b.poh_index <= poh_len) {
        return Err(ValidationError::ChainLinkMismatch);
    }
    if b.transactions.len() > MAX_TXS_PER_BLOCK {
        return Err(ValidationError::BlockTooLarge);
    }
    if !check_all_txs(&b.transactions) {
        return Err(ValidationError::SignatureInvalid);
    }
    if find_duplicate(&b.transactions) {
        return Err(ValidationError::DuplicateTransaction);
    }
    match compute_fees(&b.transactions) {
        Some(f) => {
            if b.fees != f {
                return Err(ValidationError::FeeMismatch);
            }
        },
        None => {
            return Err(ValidationError::FeeMismatch);
        },
    }
    Ok(())
}


/// Law: signature verification is a pure function of the transaction's
/// content: two transactions carrying the same sender, receiver, amount, id
/// and signature bytes verify identically, however many times they are
/// checked.
pub proof fn lemma_verification_deterministic(t1: Transaction, t2: Transaction)
    requires
        t1.sender@ == t2.sender@,
        t1.receiver@ == t2.receiver@,
        t1.amount == t2.amount,
        t1.id == t2.id,
        t1.signature@ == t2.signature@,
    ensures
        tx_payload(t1) == tx_payload(t2),
        tx_sig_ok(t1) == tx_sig_ok(t2),
        tx_valid(t1) == tx_valid(t2),
{
}

/// Law: a block fails validation with `ChainLinkMismatch` against any head
/// hash other than the one it was linked to.
pub proof fn lemma_validate_wrong_head(
    b: Block,
    head_hash: Seq<u8>,
    head_poh_index: usize,
    poh_len: usize,
)
    requires
        b.prev_hash@ != head_hash,
    ensures
        validate_spec(b, head_hash, head_poh_index, poh_len)
            == Err::<(), ValidationError>(ValidationError::ChainLinkMismatch),
{
}

/// Law: a freshly assembled and mined block validates against the head it
/// was built on: its hash commits to its contents and meets the difficulty,
/// its proof-of-history index is the tick it reserved, its transactions are
/// valid and duplicate-free, and its fee field is exact.
pub proof fn lemma_assembled_block_validates(
    b: Block,
    head_hash: Seq<u8>,
    head_poh_index: usize,
    poh_len: usize,
)
    requires
        b.prev_hash@ == head_hash,
        b.hash@ == block_hash_of(b.prev_hash@, b.transactions@, b.timestamp, b.nonce,
            b.poh_index as u64),
        hash_meets_difficulty(b.hash@, b.difficulty),
        head_poh_index < b.poh_index <= poh_len,
        b.transactions@.len() <= MAX_TXS_PER_BLOCK as int,
        all_txs_valid(b.transactions@),
        !has_duplicate(b.transactions@),
        b.fees == fees_of(b.transactions@),
    ensures
        validate_spec(b, head_hash, head_poh_index, poh_len) == Ok::<(), ValidationError>(()),
{
}

} // verus!