use grokchain::accounts::BalanceMap;
use grokchain::block::{
    check_difficulty, compute_fees, mine, validate, verify_transaction, signed_transaction,
    Block, Transaction, ValidationError, BLOCK_REWARD, MAX_TXS_PER_BLOCK,
};
use grokchain::crypto::ed25519_public_key;
use grokchain::ledger::{Ledger, LedgerError};
use grokchain::node::{genesis_block, Node, SubmitError, INITIAL_DIFFICULTY};

const SK: [u8; 32] = [7u8; 32];

fn sender_key() -> Vec<u8> {
    ed25519_public_key(&SK)
}

fn tx(receiver: &[u8], amount: u64, id: u64) -> Transaction {
    signed_transaction(&SK, receiver, amount, id)
}

/// An unsigned hand-built transfer, for ledger-level tests that do not check
/// signatures.
fn raw_tx(sender: &[u8], receiver: &[u8], amount: u64, id: u64) -> Transaction {
    Transaction {
        sender: sender.to_vec(),
        receiver: receiver.to_vec(),
        amount,
        id,
        signature: Vec::new(),
    }
}

#[test]
fn genesis_is_fixed() {
    let g = genesis_block();
    assert_eq!(g.hash, vec![0u8; 32]);
    assert_eq!(g.poh_index, 0);
    assert!(g.transactions.is_empty());
    assert_eq!(g.difficulty, INITIAL_DIFFICULTY);
    assert_eq!(g.fees, 0);
    let node = Node::new(b"treasury".to_vec());
    assert_eq!(node.head_hash, vec![0u8; 32]);
    assert_eq!(node.block_count, 1);
    assert_eq!(node.head_poh_index, 0);
}

#[test]
fn balance_map_defaults_and_updates() {
    let mut m = BalanceMap::new();
    assert_eq!(m.get(b"nobody"), 0);
    m.set(b"alice", 55);
    m.set(b"bob", 7);
    m.set(b"alice", 60);
    assert_eq!(m.get(b"alice"), 60);
    assert_eq!(m.get(b"bob"), 7);
    assert_eq!(m.get(b"carol"), 0);
}

#[test]
fn apply_block_moves_every_balance() {
    let mut ledger = Ledger::new();
    ledger.balances.set(b"a", 100);
    let txs = vec![
        raw_tx(b"a", b"b", 10, 1),
        raw_tx(b"a", b"b", 20, 2),
        raw_tx(b"a", b"b", 5, 3),
    ];
    let r = ledger.apply_block(b"treasury", b"miner", &txs, 2, BLOCK_REWARD);
    assert_eq!(r, Ok(()));
    assert_eq!(ledger.balance_of(b"a"), 65);
    assert_eq!(ledger.balance_of(b"b"), 35);
    assert_eq!(ledger.grok_balance_of(b"treasury"), 2);
    assert_eq!(ledger.grok_balance_of(b"miner"), BLOCK_REWARD);
}

#[test]
fn apply_block_is_all_or_nothing() {
    let mut ledger = Ledger::new();
    ledger.balances.set(b"a", 100);
    ledger.balances.set(b"c", 5);
    ledger.grok_balances.set(b"miner", 3);
    // the third of five transfers underflows account c
    let txs = vec![
        raw_tx(b"a", b"b", 10, 1),
        raw_tx(b"a", b"c", 20, 2),
        raw_tx(b"c", b"b", 1000, 3),
        raw_tx(b"a", b"b", 5, 4),
        raw_tx(b"b", b"a", 1, 5),
    ];
    let r = ledger.apply_block(b"treasury", b"miner", &txs, 0, BLOCK_REWARD);
    assert_eq!(r, Err(LedgerError::InsufficientFunds));
    assert_eq!(ledger.balance_of(b"a"), 100);
    assert_eq!(ledger.balance_of(b"b"), 0);
    assert_eq!(ledger.balance_of(b"c"), 5);
    assert_eq!(ledger.grok_balance_of(b"treasury"), 0);
    assert_eq!(ledger.grok_balance_of(b"miner"), 3);
}

#[test]
fn apply_block_rejects_credit_overflow() {
    let mut ledger = Ledger::new();
    ledger.balances.set(b"a", 10);
    ledger.balances.set(b"b", u64::MAX);
    let txs = vec![raw_tx(b"a", b"b", 1, 1)];
    let r = ledger.apply_block(b"t", b"m", &txs, 0, BLOCK_REWARD);
    assert_eq!(r, Err(LedgerError::BalanceOverflow));
    assert_eq!(ledger.balance_of(b"a"), 10);
    assert_eq!(ledger.balance_of(b"b"), u64::MAX);
}

#[test]
fn fees_are_one_percent_floored() {
    let txs = vec![raw_tx(b"a", b"b", 10, 1), raw_tx(b"a", b"b", 20, 2), raw_tx(b"a", b"b", 5, 3)];
    assert_eq!(compute_fees(&txs), Some(0)); // floor(35 / 100)
    let txs2 = vec![raw_tx(b"a", b"b", 150, 1), raw_tx(b"a", b"b", 100, 2)];
    assert_eq!(compute_fees(&txs2), Some(2)); // floor(250 / 100)
    let none: Vec<Transaction> = Vec::new();
    assert_eq!(compute_fees(&none), Some(0));
}

#[test]
fn difficulty_counts_leading_zero_bits() {
    let mut h = vec![0u8; 32];
    h[0] = 0;
    h[1] = 0b0001_0000;
    assert!(check_difficulty(&h, 0));
    assert!(check_difficulty(&h, 8));
    assert!(check_difficulty(&h, 11));
    assert!(!check_difficulty(&h, 12));
    assert!(!check_difficulty(&h, 257));
    assert!(!check_difficulty(&h[..31], 4));
}

#[test]
fn mining_meets_difficulty_and_revalidates() {
    let mut node = Node::new(b"treasury".to_vec());
    let a = sender_key();
    node.ledger.balances.set(&a, 100);
    assert_eq!(node.submit_transaction(tx(b"bob", 10, 1), b"client", 1000), Ok(()));
    assert_eq!(node.submit_transaction(tx(b"bob", 20, 2), b"client", 1000), Ok(()));
    assert_eq!(node.submit_transaction(tx(b"bob", 5, 3), b"client", 1000), Ok(()));
    let block = node.assemble_block(b"miner", 42).expect("mining found a nonce");
    assert!(check_difficulty(&block.hash, block.difficulty));
    // validates exactly against the head it was built on; the sequencer
    // bound is the tick count, as the node passes it
    let ticks = node.poh.len() - 1;
    assert_eq!(validate(&block, &node.head_hash, node.head_poh_index, ticks), Ok(()));
    // and fails with a chain-link mismatch against any other head
    let wrong_head = vec![9u8; 32];
    assert_eq!(
        validate(&block, &wrong_head, node.head_poh_index, ticks),
        Err(ValidationError::ChainLinkMismatch)
    );
}

#[test]
fn end_to_end_block_commit() {
    let mut node = Node::new(b"treasury".to_vec());
    let a = sender_key();
    node.ledger.balances.set(&a, 100);
    assert_eq!(node.submit_transaction(tx(b"bob", 10, 1), b"client", 1000), Ok(()));
    assert_eq!(node.submit_transaction(tx(b"bob", 20, 2), b"client", 1000), Ok(()));
    assert_eq!(node.submit_transaction(tx(b"bob", 5, 3), b"client", 1000), Ok(()));
    let block = node.assemble_block(b"miner", 42).expect("mining found a nonce");
    assert_eq!(block.fees, 0); // floor(35 * 1%) == 0
    assert_eq!(block.poh_index, 1);
    let old_head = node.head_hash.clone();
    assert_eq!(node.submit_block(&block, b"miner", 1000), Ok(()));
    assert_eq!(node.ledger.balance_of(&a), 65);
    assert_eq!(node.ledger.balance_of(b"bob"), 35);
    assert_eq!(node.ledger.grok_balance_of(b"treasury"), 0);
    assert_eq!(node.ledger.grok_balance_of(b"miner"), BLOCK_REWARD);
    assert_eq!(node.block_count, 2);
    assert_eq!(node.head_poh_index, 1);
    assert_ne!(node.head_hash, old_head);
    assert_eq!(node.head_hash, block.hash);
    assert!(node.pending.is_empty());
}

#[test]
fn end_to_end_with_nonzero_fee() {
    let mut node = Node::new(b"treasury".to_vec());
    let a = sender_key();
    node.ledger.balances.set(&a, 10_000);
    assert_eq!(node.submit_transaction(tx(b"bob", 1000, 1), b"client", 1000), Ok(()));
    assert_eq!(node.submit_transaction(tx(b"bob", 2000, 2), b"client", 1000), Ok(()));
    assert_eq!(node.submit_transaction(tx(b"bob", 500, 3), b"client", 1000), Ok(()));
    let block = node.assemble_block(b"miner", 43).expect("mining found a nonce");
    assert_eq!(block.fees, 35); // floor(3500 * 1%)
    assert_eq!(node.submit_block(&block, b"miner", 1000), Ok(()));
    assert_eq!(node.ledger.balance_of(&a), 6500);
    assert_eq!(node.ledger.balance_of(b"bob"), 3500);
    assert_eq!(node.ledger.grok_balance_of(b"treasury"), 35);
    assert_eq!(node.ledger.grok_balance_of(b"miner"), BLOCK_REWARD);
}

#[test]
fn commit_rejects_insufficient_funds_atomically() {
    let mut node = Node::new(b"treasury".to_vec());
    let a = sender_key();
    node.ledger.balances.set(&a, 5);
    assert_eq!(node.submit_transaction(tx(b"bob", 100, 1), b"client", 1000), Ok(()));
    let block = node.assemble_block(b"miner", 42).expect("mining found a nonce");
    let r = node.submit_block(&block, b"miner", 1000);
    assert_eq!(r, Err(SubmitError::InsufficientFunds));
    assert_eq!(node.ledger.balance_of(&a), 5);
    assert_eq!(node.ledger.balance_of(b"bob"), 0);
    assert_eq!(node.block_count, 1);
    assert_eq!(node.head_hash, vec![0u8; 32]);
}

fn mined_block(
    txs: Vec<Transaction>,
    head: &[u8],
    poh_index: usize,
    difficulty: u32,
    fees: u64,
) -> Block {
    let (nonce, hash) =
        mine(head, &txs, 7, poh_index as u64, difficulty).expect("mining found a nonce");
    Block {
        prev_hash: head.to_vec(),
        transactions: txs,
        timestamp: 7,
        nonce,
        hash,
        difficulty,
        miner_identity: b"miner".to_vec(),
        poh_index,
        fees,
    }
}

#[test]
fn validate_reports_each_violation() {
    let head = vec![0u8; 32];
    // invalid signature
    let bad_sig = mined_block(vec![raw_tx(b"a", b"b", 1, 1)], &head, 1, 0, 0);
    assert_eq!(validate(&bad_sig, &head, 0, 2), Err(ValidationError::SignatureInvalid));
    // duplicate (sender, id)
    let dup = mined_block(vec![tx(b"bob", 1, 9), tx(b"bob", 2, 9)], &head, 1, 0, 0);
    assert_eq!(validate(&dup, &head, 0, 2), Err(ValidationError::DuplicateTransaction));
    // wrong fee field
    let fee = mined_block(vec![tx(b"bob", 300, 1)], &head, 1, 0, 1);
    assert_eq!(validate(&fee, &head, 0, 2), Err(ValidationError::FeeMismatch));
    // proof-of-history index beyond the sequencer
    let poh = mined_block(vec![tx(b"bob", 1, 1)], &head, 5, 0, 0);
    assert_eq!(validate(&poh, &head, 0, 2), Err(ValidationError::ChainLinkMismatch));
    // tampered contents no longer match the declared hash
    let mut tampered = mined_block(vec![tx(b"bob", 1, 1)], &head, 1, 0, 0);
    tampered.nonce = tampered.nonce.wrapping_add(1);
    assert_eq!(validate(&tampered, &head, 0, 2), Err(ValidationError::ChainLinkMismatch));
    // a good block passes
    let good = mined_block(vec![tx(b"bob", 1, 1)], &head, 1, 0, 0);
    assert_eq!(validate(&good, &head, 0, 2), Ok(()));
}

#[test]
fn validate_rejects_oversized_block() {
    let head = vec![0u8; 32];
    let mut txs = Vec::new();
    for i in 0..(MAX_TXS_PER_BLOCK as u64 + 1) {
        txs.push(raw_tx(b"a", b"b", 1, i));
    }
    let b = mined_block(txs, &head, 1, 0, 0);
    assert_eq!(validate(&b, &head, 0, 2), Err(ValidationError::BlockTooLarge));
}

#[test]
fn transaction_structure_is_checked() {
    // a zero amount is rejected
    let zero = signed_transaction(&SK, b"bob", 0, 1);
    assert!(!verify_transaction(&zero));
    // sending to oneself is rejected
    let self_key = sender_key();
    let to_self = signed_transaction(&SK, &self_key, 5, 2);
    assert!(!verify_transaction(&to_self));
    // a well-formed signed transfer passes
    let good = signed_transaction(&SK, b"bob", 5, 3);
    assert!(verify_transaction(&good));
}

#[test]
fn duplicate_pool_entries_are_caught_at_validation() {
    // the pool does not deduplicate; the assembled block is then rejected
    let mut node = Node::new(b"treasury".to_vec());
    let a = sender_key();
    node.ledger.balances.set(&a, 100);
    assert_eq!(node.submit_transaction(tx(b"bob", 10, 1), b"client", 1000), Ok(()));
    assert_eq!(node.submit_transaction(tx(b"bob", 10, 1), b"client", 1000), Ok(()));
    let block = node.assemble_block(b"miner", 42).expect("mining found a nonce");
    assert_eq!(node.submit_block(&block, b"miner", 1000), Err(SubmitError::DuplicateTransaction));
    assert_eq!(node.ledger.balance_of(&a), 100);
    assert_eq!(node.block_count, 1);
}
