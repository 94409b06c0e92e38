use alloy_consensus::{SignableTransaction, TxEip1559, TxEnvelope, TxLegacy};
use alloy_eips::eip2718::Encodable2718;
use alloy_primitives::{Address, Bytes, Signature, TxKind, U256};
use k256::ecdsa::SigningKey;
use sha3::{Digest, Keccak256};

use kora::rpc::error::RpcError;
use kora::rpc::eth::EthApiImpl;
use kora::rpc::pending::raw_tx_to_pending_rpc;

fn key() -> SigningKey {
    let mut secret = [0u8; 32];
    secret[31] = 1;
    SigningKey::from_slice(&secret).unwrap()
}

fn address() -> [u8; 20] {
    let encoded = key().verifying_key().to_encoded_point(false);
    let hash = Keccak256::digest(&encoded.as_bytes()[1..]);
    let mut out = [0u8; 20];
    out.copy_from_slice(&hash[12..]);
    out
}

fn signed_test_tx(chain_id: u64, nonce: u64) -> Vec<u8> {
    let tx = TxEip1559 {
        chain_id,
        nonce,
        gas_limit: 21_000,
        max_fee_per_gas: 1,
        max_priority_fee_per_gas: 1,
        to: TxKind::Call(Address::repeat_byte(0xbb)),
        value: U256::from(1),
        access_list: Default::default(),
        input: Bytes::new(),
    };
    let digest = Keccak256::new_with_prefix(tx.encoded_for_signing());
    let (sig, recid) = key().sign_digest_recoverable(digest).expect("sign tx");
    let signature = Signature::from((sig, recid));
    let envelope = TxEnvelope::from(tx.into_signed(signature));
    let mut raw = Vec::new();
    envelope.encode_2718(&mut raw);
    raw
}

#[test]
fn eth_get_transaction_by_hash_returns_pending_submission() {
    let mut api = EthApiImpl::new(1);
    let tx_data = signed_test_tx(1, 7);
    let hash = api.record_pending(raw_tx_to_pending_rpc(&tx_data).unwrap());
    let tx = api.transaction_by_hash(&hash, None).expect("pending transaction should be visible");
    assert_eq!(tx.hash, hash);
    assert_eq!(tx.hash, alloy_primitives::keccak256(&tx_data).0);
    assert_eq!(tx.nonce, 7);
    assert!(tx.block_hash.is_none());
    assert_eq!(tx.from, address());
    assert_eq!(tx.to, Some([0xbb; 20]));
    assert_eq!(tx.value, U256::from(1).to_be_bytes::<32>());
    assert_eq!(tx.gas, 21_000);
    assert_eq!(tx.gas_price, U256::from(1).to_be_bytes::<32>());
    assert_eq!(tx.tx_type, 2);
    assert_eq!(tx.chain_id, Some(1));
    assert_eq!(tx.max_fee_per_gas, Some(U256::from(1).to_be_bytes::<32>()));
    assert_eq!(tx.max_priority_fee_per_gas, Some(U256::from(1).to_be_bytes::<32>()));
}

#[test]
fn legacy_pending_has_no_fee_caps() {
    let tx = TxLegacy {
        chain_id: Some(1),
        nonce: 2,
        gas_limit: 21_000,
        gas_price: 9,
        to: TxKind::Create,
        value: U256::ZERO,
        input: Bytes::from(vec![1, 2, 3]),
    };
    let (sig, recid) = key().sign_prehash_recoverable(tx.signature_hash().as_slice()).unwrap();
    let signature = Signature::from((sig, recid));
    let envelope = TxEnvelope::from(tx.into_signed(signature));
    let mut raw = Vec::new();
    envelope.encode_2718(&mut raw);
    let pending = raw_tx_to_pending_rpc(&raw).unwrap();
    assert_eq!(pending.tx_type, 0);
    assert_eq!(pending.to, None);
    assert_eq!(pending.input, vec![1, 2, 3]);
    assert_eq!(pending.gas_price, U256::from(9).to_be_bytes::<32>());
    assert_eq!(pending.max_fee_per_gas, None);
    assert_eq!(pending.max_priority_fee_per_gas, None);
    assert_eq!(pending.from, address());
}

#[test]
fn undecodable_submission_is_invalid() {
    match raw_tx_to_pending_rpc(&vec![0xff; 10]) {
        Err(RpcError::InvalidTransaction(m)) => assert!(m.starts_with("failed to decode: ")),
        other => panic!("unexpected {other:?}"),
    }
}

#[test]
fn unrecoverable_signature_is_invalid() {
    let tx = TxEip1559 { chain_id: 1, gas_limit: 21_000, to: TxKind::Create, ..Default::default() };
    let signature = Signature::new(U256::ZERO, U256::ZERO, false);
    let envelope = TxEnvelope::from(tx.into_signed(signature));
    let mut raw = Vec::new();
    envelope.encode_2718(&mut raw);
    match raw_tx_to_pending_rpc(&raw) {
        Err(RpcError::InvalidTransaction(m)) => assert!(m.starts_with("failed to recover signer: ")),
        other => panic!("unexpected {other:?}"),
    }
}

#[test]
fn eth_chain_id() {
    let api = EthApiImpl::new(1337);
    assert_eq!(api.chain_id(), 1337);
}

#[test]
fn eth_block_number() {
    let api = EthApiImpl::new(1);
    api.set_block_height(42);
    assert_eq!(api.block_number(None), 42);
    assert_eq!(api.block_number(Some(7)), 7);
    api.block_height_handle().store(9, std::sync::atomic::Ordering::Relaxed);
    assert_eq!(api.block_number(None), 9);
}

#[test]
fn eth_send_raw_transaction() {
    let mut api = EthApiImpl::new(1);
    let tx_data = signed_test_tx(1, 0);
    let pending = raw_tx_to_pending_rpc(&tx_data).unwrap();
    let hash = api.record_pending(pending);
    assert_eq!(hash, alloy_primitives::keccak256(&tx_data).0);
}

#[test]
fn send_raw_transaction_with_no_callback_silently_accepts_but_drops() {
    let mut api = EthApiImpl::new(1);
    let tx_data = signed_test_tx(1, 0);
    let hash = api.record_pending(raw_tx_to_pending_rpc(&tx_data).unwrap());
    assert_eq!(hash, alloy_primitives::keccak256(&tx_data).0);
    assert!(api.transaction_by_hash(&hash, None).is_some());
}

#[test]
fn indexed_transaction_replaces_the_pending_record() {
    let mut api = EthApiImpl::new(1);
    let hash = api.record_pending(raw_tx_to_pending_rpc(&signed_test_tx(1, 3)).unwrap());
    let mut indexed = raw_tx_to_pending_rpc(&signed_test_tx(1, 3)).unwrap();
    indexed.block_number = Some(5);
    let answer = api.transaction_by_hash(&hash, Some(indexed)).unwrap();
    assert_eq!(answer.block_number, Some(5));
    assert!(api.pending_transaction(&hash).is_none());
    assert!(api.transaction_by_hash(&hash, None).is_none());
}

#[test]
fn resubmission_keeps_one_record() {
    let mut api = EthApiImpl::new(1);
    let raw = signed_test_tx(1, 4);
    let h1 = api.record_pending(raw_tx_to_pending_rpc(&raw).unwrap());
    let h2 = api.record_pending(raw_tx_to_pending_rpc(&raw).unwrap());
    assert_eq!(h1, h2);
    let other = api.record_pending(raw_tx_to_pending_rpc(&signed_test_tx(1, 5)).unwrap());
    assert_ne!(other, h1);
    assert_eq!(api.pending_transaction(&h1).unwrap().nonce, 4);
    assert_eq!(api.pending_transaction(&other).unwrap().nonce, 5);
    assert!(api.pending_transaction(&[0u8; 32]).is_none());
}

#[test]
fn fixed_eth_answers() {
    let api = EthApiImpl::new(1);
    assert_eq!(U256::from_be_bytes(api.gas_price()), U256::from(1_000_000_000u64));
    assert_eq!(U256::from_be_bytes(api.max_priority_fee_per_gas()), U256::from(1_000_000_000u64));
    assert!(api.accounts().is_empty());
    assert_eq!(api.protocol_version(), "0x44");
    assert!(!api.syncing());
}

#[test]
fn a_submission_is_cached_only_when_the_hook_accepts_it() {
    let mut api = EthApiImpl::new(1);
    let tx_data = signed_test_tx(1, 42);
    let hash: [u8; 32] = Keccak256::digest(&tx_data).into();

    let refused = api.finish_submission(
        raw_tx_to_pending_rpc(&tx_data).unwrap(),
        Err(RpcError::InvalidTransaction("pool full".to_string())),
    );
    assert!(matches!(refused, Err(RpcError::InvalidTransaction(m)) if m == "pool full"));
    assert!(api.pending_transaction(&hash).is_none());

    let accepted = api.finish_submission(raw_tx_to_pending_rpc(&tx_data).unwrap(), Ok(()));
    assert_eq!(accepted.unwrap(), hash);
    assert_eq!(api.pending_transaction(&hash).unwrap().nonce, 42);
}
