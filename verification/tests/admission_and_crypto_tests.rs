use grokchain::admission::{AdmissionControl, AdmissionError, BAN_DURATION, RATE_LIMIT};
use grokchain::block::{signed_transaction, verify_transaction, Transaction};
use grokchain::crypto::{blake3_hash, ed25519_public_key, ed25519_sign, ed25519_verify, sha256};
use grokchain::encoding::{bytes_eq, clone_bytes, encode_u64};
use grokchain::node::{Node, SubmitError};
use grokchain::poh::PohSequencer;
use ed25519_dalek::Signer;

const SK: [u8; 32] = [7u8; 32];

#[test]
fn sha256_wrapper_matches_crate() {
    let digest = sha256(b"abc");
    let expected = hex_decode("ba7816bf8f01cfea414140de5dae2223b00361a396177a9cb410ff61f20015ad");
    assert_eq!(digest, expected);
    assert_eq!(digest.len(), 32);
}

fn hex_decode(s: &str) -> Vec<u8> {
    let b = s.as_bytes();
    let mut out = Vec::new();
    let nibble = |c: u8| -> u8 {
        match c {
            b'0'..=b'9' => c - b'0',
            b'a'..=b'f' => c - b'a' + 10,
            _ => panic!("bad hex"),
        }
    };
    for pair in b.chunks(2) {
        out.push(nibble(pair[0]) * 16 + nibble(pair[1]));
    }
    out
}

#[test]
fn blake3_wrapper_matches_crate() {
    let digest = blake3_hash(b"abc");
    assert_eq!(digest, blake3::hash(b"abc").as_bytes().to_vec());
    assert_ne!(digest, blake3_hash(b"abd"));
}

#[test]
fn signing_round_trip_and_tampering() {
    let pk = ed25519_public_key(&SK);
    let sig = ed25519_sign(&SK, b"hello");
    assert_eq!(sig.len(), 64);
    assert!(ed25519_verify(&pk, b"hello", &sig));
    assert!(!ed25519_verify(&pk, b"hellp", &sig));
    let mut bad_sig = sig.clone();
    bad_sig[0] ^= 1;
    assert!(!ed25519_verify(&pk, b"hello", &bad_sig));
    assert!(!ed25519_verify(b"short key", b"hello", &sig));
    // the wrapper agrees with a signature produced by the crate directly
    let key = ed25519_dalek::SigningKey::from_bytes(&SK);
    let direct = key.sign(b"hello").to_bytes().to_vec();
    assert_eq!(sig, direct);
}

#[test]
fn verification_is_pure_and_idempotent() {
    // signing the same payload twice gives the same signature, and verifying
    // twice gives the same result both times
    let t1 = signed_transaction(&SK, b"bob", 12, 4);
    let t2 = signed_transaction(&SK, b"bob", 12, 4);
    assert_eq!(t1.signature, t2.signature);
    let first = verify_transaction(&t1);
    let second = verify_transaction(&t1);
    assert_eq!(first, second);
    assert!(first);
}

#[test]
fn poh_indices_increase_by_one() {
    let mut poh = PohSequencer::new();
    assert_eq!(poh.len(), 1); // the seed entry
    let mut last_index = 0usize;
    for n in 1..=5u64 {
        let (index, mix) = poh.tick(&n.to_le_bytes());
        assert_eq!(index, last_index + 1);
        assert_eq!(mix.len(), 32);
        last_index = index;
        assert_eq!(poh.len(), index + 1); // after N ticks the length is N + 1
    }
    let (tip_index, _tip) = poh.current();
    assert_eq!(tip_index, 5);
}

#[test]
fn poh_entry_mixes_previous_entry_and_event() {
    let mut poh = PohSequencer::new();
    let (_i0, seed) = poh.current();
    let (_i1, mix) = poh.tick(b"event");
    let mut input = clone_bytes(&seed);
    input.extend_from_slice(b"event");
    assert_eq!(mix, sha256(&input));
}

#[test]
fn rate_limit_allows_five_per_window() {
    let mut adm = AdmissionControl::new();
    for _ in 0..RATE_LIMIT {
        assert_eq!(adm.check_submission(b"x", 10), Ok(()));
    }
    // the sixth inside the same window is rejected
    assert_eq!(adm.check_submission(b"x", 10), Err(AdmissionError::RateLimited));
    // another identity is unaffected
    assert_eq!(adm.check_submission(b"y", 10), Ok(()));
    // once the window slides past one second, a new request succeeds
    assert_eq!(adm.check_submission(b"x", 11), Ok(()));
}

#[test]
fn blacklist_bans_for_exactly_the_duration() {
    let mut adm = AdmissionControl::new();
    adm.record_failure(b"x", 100);
    adm.record_failure(b"x", 100);
    assert!(!adm.is_banned(b"x", 100));
    adm.record_failure(b"x", 100); // the third failure reaches the threshold
    let unban = 100 + BAN_DURATION;
    assert!(adm.is_banned(b"x", unban - 1));
    assert_eq!(adm.check_submission(b"x", unban - 1), Err(AdmissionError::Banned));
    assert!(!adm.is_banned(b"x", unban));
    assert_eq!(adm.check_submission(b"x", unban), Ok(()));
}

#[test]
fn invalid_signatures_escalate_to_a_ban() {
    let mut node = Node::new(b"treasury".to_vec());
    let bad = Transaction {
        sender: b"someone".to_vec(),
        receiver: b"else".to_vec(),
        amount: 5,
        id: 1,
        signature: vec![0u8; 64],
    };
    for i in 0..3u64 {
        let t = Transaction {
            sender: bad.sender.clone(),
            receiver: bad.receiver.clone(),
            amount: bad.amount,
            id: bad.id,
            signature: bad.signature.clone(),
        };
        // spread over time so the rate limiter stays out of the way
        let r = node.submit_transaction(t, b"attacker", 100 + 10 * i);
        assert_eq!(r, Err(SubmitError::SignatureInvalid));
    }
    // the third failure banned the identity
    let t = signed_transaction(&SK, b"bob", 5, 1);
    assert_eq!(node.submit_transaction(t, b"attacker", 130), Err(SubmitError::Banned));
    // a success resets the failure count for a clean identity
    let a = ed25519_public_key(&SK);
    node.ledger.balances.set(&a, 100);
    let t = signed_transaction(&SK, b"bob", 5, 1);
    assert_eq!(node.submit_transaction(t, b"client", 130), Ok(()));
}

#[test]
fn node_rate_limits_submissions() {
    let mut node = Node::new(b"treasury".to_vec());
    let a = ed25519_public_key(&SK);
    node.ledger.balances.set(&a, 1000);
    for i in 0..5u64 {
        let t = signed_transaction(&SK, b"bob", 1, i);
        assert_eq!(node.submit_transaction(t, b"client", 50), Ok(()));
    }
    let t = signed_transaction(&SK, b"bob", 1, 6);
    assert_eq!(node.submit_transaction(t, b"client", 50), Err(SubmitError::RateLimited));
    let t = signed_transaction(&SK, b"bob", 1, 6);
    assert_eq!(node.submit_transaction(t, b"client", 51), Ok(()));
}

#[test]
fn little_endian_encoding_is_exact() {
    let mut out = Vec::new();
    encode_u64(&mut out, 0x0102030405060708);
    assert_eq!(out, vec![8, 7, 6, 5, 4, 3, 2, 1]);
    assert!(bytes_eq(b"same", b"same"));
    assert!(!bytes_eq(b"same", b"different"));
}
