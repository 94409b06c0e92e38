use alloy_consensus::transaction::SignerRecoverable;
use alloy_consensus::{Transaction, TxEnvelope};
use alloy_primitives::{Address, TxKind, U256};
use alloy_rlp::Decodable;
use k256::ecdsa::SigningKey;
use sha3::{Digest, Keccak256};

use kora::scenario::{TestSetup, TRANSFER_GAS_LIMIT};

fn address_of_byte(b: u8) -> [u8; 20] {
    let key = SigningKey::from_slice(&[b; 32]).unwrap();
    let point = key.verifying_key().to_encoded_point(false);
    let hash = Keccak256::digest(&point.as_bytes()[1..]);
    let mut out = [0u8; 20];
    out.copy_from_slice(&hash[12..]);
    out
}

fn value(word: &[u8; 32]) -> U256 {
    U256::from_be_bytes(*word)
}

fn check_transfer(raw: &[u8], chain_id: u64, from: [u8; 20], to: [u8; 20], nonce: u64) {
    let envelope = TxEnvelope::decode(&mut &raw[..]).unwrap();
    assert_eq!(envelope.chain_id(), Some(chain_id));
    assert_eq!(envelope.nonce(), nonce);
    assert_eq!(envelope.gas_limit(), TRANSFER_GAS_LIMIT);
    assert_eq!(envelope.kind(), TxKind::Call(Address::from(to)));
    assert_eq!(envelope.value(), U256::from(100u64));
    assert_eq!(envelope.recover_signer().unwrap(), Address::from(from));
}

#[test]
fn empty_scenario() {
    let s = TestSetup::empty();
    assert!(s.genesis_alloc.is_empty());
    assert!(s.bootstrap_txs.is_empty());
    assert!(s.expected_balances.is_empty());
}

#[test]
fn simple_transfer_scenario() {
    let s = TestSetup::simple_transfer(1337).unwrap();
    let (from, to) = (address_of_byte(1), address_of_byte(2));
    let expected_from: Address = "0x1a642f0E3c3aF545E7AcBD38b07251B3990914F1".parse().unwrap();
    assert_eq!(Address::from(from), expected_from);
    assert_eq!(s.genesis_alloc.len(), 2);
    assert_eq!((s.genesis_alloc[0].0, value(&s.genesis_alloc[0].1)), (from, U256::from(1_000_000u64)));
    assert_eq!((s.genesis_alloc[1].0, value(&s.genesis_alloc[1].1)), (to, U256::ZERO));
    assert_eq!(s.bootstrap_txs.len(), 1);
    check_transfer(&s.bootstrap_txs[0], 1337, from, to, 0);
    assert_eq!((s.expected_balances[0].0, value(&s.expected_balances[0].1)), (from, U256::from(999_900u64)));
    assert_eq!((s.expected_balances[1].0, value(&s.expected_balances[1].1)), (to, U256::from(100u64)));
}

#[test]
fn multi_transfer_scenario() {
    let s = TestSetup::multi_transfer(7, 3).unwrap();
    assert_eq!(s.genesis_alloc.len(), 6);
    assert_eq!(s.bootstrap_txs.len(), 3);
    assert_eq!(s.expected_balances.len(), 6);
    for i in 0..3usize {
        let from = address_of_byte(i as u8 + 1);
        let to = address_of_byte(i as u8 + 100);
        assert_eq!((s.genesis_alloc[2 * i].0, value(&s.genesis_alloc[2 * i].1)), (from, U256::from(1_000_000u64)));
        assert_eq!((s.genesis_alloc[2 * i + 1].0, value(&s.genesis_alloc[2 * i + 1].1)), (to, U256::ZERO));
        check_transfer(&s.bootstrap_txs[i], 7, from, to, 0);
        assert_eq!(
            (s.expected_balances[2 * i].0, value(&s.expected_balances[2 * i].1)),
            (from, U256::from(999_900u64))
        );
        assert_eq!((s.expected_balances[2 * i + 1].0, value(&s.expected_balances[2 * i + 1].1)), (to, U256::from(100u64)));
    }
}

#[test]
fn multi_transfer_reaching_an_invalid_key_fails() {
    // The receiver of transfer 155 has the key of 0xff bytes, above the
    // curve order.
    assert!(TestSetup::multi_transfer(1, 155).is_some());
    assert!(TestSetup::multi_transfer(1, 156).is_none());
}

#[test]
fn sequential_nonces_scenario() {
    let s = TestSetup::sequential_nonces(1337, 5).unwrap();
    let (from, to) = (address_of_byte(1), address_of_byte(2));
    assert_eq!((s.genesis_alloc[0].0, value(&s.genesis_alloc[0].1)), (from, U256::from(10_000_000u64)));
    assert_eq!((s.genesis_alloc[1].0, value(&s.genesis_alloc[1].1)), (to, U256::ZERO));
    assert_eq!(s.bootstrap_txs.len(), 5);
    for (nonce, raw) in s.bootstrap_txs.iter().enumerate() {
        check_transfer(raw, 1337, from, to, nonce as u64);
    }
    assert_eq!((s.expected_balances[0].0, value(&s.expected_balances[0].1)), (from, U256::from(9_999_500u64)));
    assert_eq!((s.expected_balances[1].0, value(&s.expected_balances[1].1)), (to, U256::from(500u64)));
}

#[test]
fn sequential_nonces_without_transfers() {
    let s = TestSetup::sequential_nonces(1, 0).unwrap();
    assert!(s.bootstrap_txs.is_empty());
    assert_eq!(value(&s.expected_balances[0].1), U256::from(10_000_000u64));
    assert_eq!(value(&s.expected_balances[1].1), U256::ZERO);
}
