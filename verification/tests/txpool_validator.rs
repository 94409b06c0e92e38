use alloy_consensus::{SignableTransaction, TxEip1559, TxEnvelope, TxLegacy};
use alloy_eips::eip2718::Encodable2718;
use alloy_eips::eip2930::{AccessList, AccessListItem};
use alloy_primitives::{Address, Bytes, Signature, TxKind, B256, U256};
use k256::ecdsa::SigningKey;
use sha3::{Digest, Keccak256};

use kora::txpool::config::PoolConfig;
use kora::txpool::envelope::{decode_transaction, decoded_from_envelope, EnvelopeType};
use kora::txpool::error::TxPoolError;
use kora::txpool::pool::{tx_to_ordered, TransactionPool};
use kora::txpool::validator::{
    effective_gas_price, intrinsic_gas, max_tx_cost, recover_sender_from_envelope, TransactionValidator,
    ValidatedTransaction,
};

const TX_BASE_GAS: u64 = 21000;
const TX_DATA_ZERO_GAS: u64 = 4;
const TX_DATA_NON_ZERO_GAS: u64 = 16;
const TX_CREATE_GAS: u64 = 32000;
const TX_ACCESS_LIST_ADDRESS_GAS: u64 = 2400;
const TX_ACCESS_LIST_STORAGE_KEY_GAS: u64 = 1900;

fn signing_key(seed: u8) -> SigningKey {
    SigningKey::from_slice(&[seed; 32]).unwrap()
}

fn address_of(key: &SigningKey) -> [u8; 20] {
    let pubkey = key.verifying_key().to_encoded_point(false);
    let hash = Keccak256::digest(&pubkey.as_bytes()[1..]);
    let mut out = [0u8; 20];
    out.copy_from_slice(&hash[12..]);
    out
}

fn sign<T: SignableTransaction<Signature>>(key: &SigningKey, tx: T) -> TxEnvelope
where
    TxEnvelope: From<alloy_consensus::Signed<T>>,
{
    let sig_hash = tx.signature_hash();
    let (sig, recovery_id) = key.sign_prehash_recoverable(sig_hash.as_slice()).unwrap();
    let r = U256::from_be_slice(&sig.r().to_bytes());
    let s = U256::from_be_slice(&sig.s().to_bytes());
    let signature = Signature::new(r, s, recovery_id.is_y_odd());
    TxEnvelope::from(tx.into_signed(signature))
}

fn raw_of(envelope: &TxEnvelope) -> Vec<u8> {
    let mut raw = Vec::new();
    envelope.encode_2718(&mut raw);
    raw
}

fn sign_eip1559_tx(
    seed: u8,
    chain_id: u64,
    nonce: u64,
    gas_limit: u64,
    max_fee_per_gas: u128,
    value: U256,
    to: Option<Address>,
) -> ([u8; 20], TxEnvelope, Vec<u8>) {
    let key = signing_key(seed);
    let tx = TxEip1559 {
        chain_id,
        nonce,
        gas_limit,
        max_fee_per_gas,
        max_priority_fee_per_gas: max_fee_per_gas,
        to: to.map(TxKind::Call).unwrap_or(TxKind::Create),
        value,
        access_list: Default::default(),
        input: Bytes::new(),
    };
    let envelope = sign(&key, tx);
    let raw = raw_of(&envelope);
    (address_of(&key), envelope, raw)
}

fn sign_legacy_tx(
    seed: u8,
    chain_id: u64,
    nonce: u64,
    gas_limit: u64,
    gas_price: u128,
    value: U256,
    to: Option<Address>,
) -> ([u8; 20], TxEnvelope, Vec<u8>) {
    let key = signing_key(seed);
    let tx = TxLegacy {
        chain_id: Some(chain_id),
        nonce,
        gas_limit,
        gas_price,
        to: to.map(TxKind::Call).unwrap_or(TxKind::Create),
        value,
        input: Bytes::new(),
    };
    let envelope = sign(&key, tx);
    let raw = raw_of(&envelope);
    (address_of(&key), envelope, raw)
}

fn be(v: U256) -> [u8; 32] {
    v.to_be_bytes::<32>()
}

/// The whole validation with the state the caller reads: the checks that
/// need no state, then nonce, then balance.
fn validate(
    validator: &TransactionValidator,
    raw: &Vec<u8>,
    state_nonce: u64,
    balance: U256,
) -> Result<ValidatedTransaction, TxPoolError> {
    let validated = validator.validate(raw)?;
    validated.check_state(Ok(state_nonce), Ok(be(balance)))
}

fn unsigned_envelope_1559(to: TxKind, input: Bytes, access_list: AccessList, gas_limit: u64, value: U256) -> TxEnvelope {
    let tx = TxEip1559 {
        chain_id: 1,
        nonce: 0,
        gas_limit,
        max_fee_per_gas: 1_000_000_000,
        max_priority_fee_per_gas: 1_000_000_000,
        to,
        value,
        access_list,
        input,
    };
    let sig = Signature::from_scalars_and_parity(B256::ZERO, B256::ZERO, false);
    TxEnvelope::from(tx.into_signed(sig))
}

#[test]
fn validate_valid_eip1559_transaction() {
    let chain_id = 1u64;
    let (sender, _, raw_tx) =
        sign_eip1559_tx(1, chain_id, 0, 21000, 1_000_000_000, U256::from(1000), Some(Address::ZERO));
    let validator = TransactionValidator::new(chain_id, PoolConfig::default());
    let result = validate(&validator, &raw_tx, 0, U256::from(1_000_000_000_000_000_000u64));
    assert!(result.is_ok());
    let validated = result.unwrap();
    assert_eq!(validated.sender, sender);
    assert_eq!(validated.nonce, 0);
    assert_eq!(validated.gas_limit, 21000);
}

#[test]
fn validate_valid_legacy_transaction() {
    let chain_id = 1u64;
    let (_, _, raw_tx) =
        sign_legacy_tx(2, chain_id, 0, 21000, 1_000_000_000, U256::from(1000), Some(Address::ZERO));
    let validator = TransactionValidator::new(chain_id, PoolConfig::default());
    let result = validate(&validator, &raw_tx, 0, U256::from(1_000_000_000_000_000_000u64));
    assert!(result.is_ok());
}

#[test]
fn reject_transaction_too_large() {
    let (_, _, raw_tx) = sign_eip1559_tx(3, 1, 0, 21000, 1_000_000_000, U256::ZERO, Some(Address::ZERO));
    let validator = TransactionValidator::new(1, PoolConfig::default().with_max_tx_size(10));
    let result = validate(&validator, &raw_tx, 0, U256::from(1_000_000_000_000_000_000u64));
    assert!(matches!(result, Err(TxPoolError::TxTooLarge { max: 10, .. })));
}

#[test]
fn reject_invalid_chain_id() {
    let (_, _, raw_tx) = sign_eip1559_tx(4, 5, 0, 21000, 1_000_000_000, U256::ZERO, Some(Address::ZERO));
    let validator = TransactionValidator::new(1, PoolConfig::default());
    let result = validate(&validator, &raw_tx, 0, U256::from(1_000_000_000_000_000_000u64));
    assert!(matches!(result, Err(TxPoolError::InvalidChainId { got: 5, expected: 1 })));
}

#[test]
fn reject_gas_price_too_low() {
    let (_, _, raw_tx) = sign_eip1559_tx(5, 1, 0, 21000, 100, U256::ZERO, Some(Address::ZERO));
    let validator = TransactionValidator::new(1, PoolConfig::default().with_min_gas_price(1_000_000_000));
    let result = validate(&validator, &raw_tx, 0, U256::from(1_000_000_000_000_000_000u64));
    assert!(matches!(result, Err(TxPoolError::GasPriceTooLow { price: 100, min: 1_000_000_000 })));
}

#[test]
fn reject_intrinsic_gas_too_low() {
    let (_, _, raw_tx) = sign_eip1559_tx(6, 1, 0, 1000, 1_000_000_000, U256::ZERO, Some(Address::ZERO));
    let validator = TransactionValidator::new(1, PoolConfig::default());
    let result = validate(&validator, &raw_tx, 0, U256::from(1_000_000_000_000_000_000u64));
    assert!(matches!(result, Err(TxPoolError::IntrinsicGasTooLow { limit: 1000, intrinsic: 21000 })));
}

#[test]
fn reject_nonce_too_low() {
    let (_, _, raw_tx) = sign_eip1559_tx(7, 1, 0, 21000, 1_000_000_000, U256::ZERO, Some(Address::ZERO));
    let validator = TransactionValidator::new(1, PoolConfig::default());
    let result = validate(&validator, &raw_tx, 5, U256::from(1_000_000_000_000_000_000u64));
    assert!(matches!(result, Err(TxPoolError::NonceTooLow { got: 0, expected: 5 })));
}

#[test]
fn reject_insufficient_balance() {
    let (_, _, raw_tx) = sign_eip1559_tx(
        8,
        1,
        0,
        21000,
        1_000_000_000,
        U256::from(1_000_000_000_000_000u64),
        Some(Address::ZERO),
    );
    let validator = TransactionValidator::new(1, PoolConfig::default());
    let result = validate(&validator, &raw_tx, 0, U256::from(1000));
    let need = U256::from(21000u64) * U256::from(1_000_000_000u64) + U256::from(1_000_000_000_000_000u64);
    match result {
        Err(TxPoolError::InsufficientBalance { need: n, have }) => {
            assert_eq!(n, be(need));
            assert_eq!(have, be(U256::from(1000)));
        }
        other => panic!("unexpected {other:?}"),
    }
}

#[test]
fn accept_future_nonce() {
    let (_, _, raw_tx) = sign_eip1559_tx(9, 1, 10, 21000, 1_000_000_000, U256::ZERO, Some(Address::ZERO));
    let validator = TransactionValidator::new(1, PoolConfig::default());
    let result = validate(&validator, &raw_tx, 0, U256::from(1_000_000_000_000_000_000u64));
    assert!(result.is_ok());
    assert_eq!(result.unwrap().nonce, 10);
}

#[test]
fn validated_tx_into_ordered() {
    let (sender, envelope, raw_tx) =
        sign_eip1559_tx(10, 1, 0, 21000, 1_000_000_000, U256::ZERO, Some(Address::ZERO));
    let validator = TransactionValidator::new(1, PoolConfig::default());
    let validated = validate(&validator, &raw_tx, 0, U256::from(1_000_000_000_000_000_000u64)).unwrap();
    let timestamp = 1234567890u64;
    let ordered = validated.into_ordered(timestamp);
    assert_eq!(ordered.sender, sender);
    assert_eq!(ordered.nonce, 0);
    assert_eq!(ordered.timestamp, timestamp);
    assert_eq!(ordered.effective_gas_price, 1_000_000_000);
    let rlp = alloy_rlp::encode(&envelope);
    assert_eq!(ordered.encoded, rlp);
    assert_eq!(ordered.hash, alloy_primitives::keccak256(&rlp).0);
}

#[test]
fn reject_invalid_rlp() {
    let validator = TransactionValidator::new(1, PoolConfig::default());
    let invalid_tx = vec![0xffu8; 100];
    let result = validator.validate(&invalid_tx);
    assert!(matches!(result, Err(TxPoolError::DecodeError(_))));
}

#[test]
fn effective_gas_price_eip1559() {
    let tx = TxEip1559 {
        chain_id: 1,
        nonce: 0,
        gas_limit: 21000,
        max_fee_per_gas: 2_000_000_000,
        max_priority_fee_per_gas: 1_000_000_000,
        to: TxKind::Call(Address::ZERO),
        value: U256::ZERO,
        access_list: Default::default(),
        input: Bytes::new(),
    };
    let sig = Signature::from_scalars_and_parity(B256::ZERO, B256::ZERO, false);
    let envelope = TxEnvelope::from(tx.into_signed(sig));
    let decoded = decoded_from_envelope(&envelope);
    assert_eq!(decoded.tx_type, EnvelopeType::Eip1559);
    assert_eq!(effective_gas_price(&decoded), 2_000_000_000);
}

#[test]
fn effective_gas_price_legacy() {
    let tx = TxLegacy {
        chain_id: Some(1),
        nonce: 0,
        gas_limit: 21000,
        gas_price: 3_000_000_000,
        to: TxKind::Call(Address::ZERO),
        value: U256::ZERO,
        input: Bytes::new(),
    };
    let sig = Signature::from_scalars_and_parity(B256::ZERO, B256::ZERO, false);
    let envelope = TxEnvelope::from(tx.into_signed(sig));
    let decoded = decoded_from_envelope(&envelope);
    assert_eq!(decoded.tx_type, EnvelopeType::Legacy);
    assert_eq!(effective_gas_price(&decoded), 3_000_000_000);
}

#[test]
fn intrinsic_gas_basic_transfer() {
    let envelope = unsigned_envelope_1559(TxKind::Call(Address::ZERO), Bytes::new(), Default::default(), 21000, U256::ZERO);
    assert_eq!(intrinsic_gas(&decoded_from_envelope(&envelope)), TX_BASE_GAS);
}

#[test]
fn intrinsic_gas_with_data() {
    let envelope = unsigned_envelope_1559(
        TxKind::Call(Address::ZERO),
        Bytes::from(vec![0u8, 1u8, 0u8, 2u8]),
        Default::default(),
        100000,
        U256::ZERO,
    );
    assert_eq!(
        intrinsic_gas(&decoded_from_envelope(&envelope)),
        TX_BASE_GAS + 2 * TX_DATA_ZERO_GAS + 2 * TX_DATA_NON_ZERO_GAS
    );
}

#[test]
fn intrinsic_gas_contract_creation() {
    let envelope = unsigned_envelope_1559(TxKind::Create, Bytes::new(), Default::default(), 100000, U256::ZERO);
    assert_eq!(intrinsic_gas(&decoded_from_envelope(&envelope)), TX_BASE_GAS + TX_CREATE_GAS);
}

#[test]
fn intrinsic_gas_with_access_list() {
    let access_list = AccessList::from(vec![AccessListItem {
        address: Address::ZERO,
        storage_keys: vec![B256::ZERO, B256::ZERO],
    }]);
    let envelope = unsigned_envelope_1559(TxKind::Call(Address::ZERO), Bytes::new(), access_list, 100000, U256::ZERO);
    assert_eq!(
        intrinsic_gas(&decoded_from_envelope(&envelope)),
        TX_BASE_GAS + TX_ACCESS_LIST_ADDRESS_GAS + 2 * TX_ACCESS_LIST_STORAGE_KEY_GAS
    );
}

#[test]
fn max_tx_cost_calculation() {
    let envelope = unsigned_envelope_1559(
        TxKind::Call(Address::ZERO),
        Bytes::new(),
        Default::default(),
        21000,
        U256::from(1_000_000_000_000_000_000u64),
    );
    let expected = U256::from(21000u64) * U256::from(1_000_000_000u64) + U256::from(1_000_000_000_000_000_000u64);
    assert_eq!(max_tx_cost(&decoded_from_envelope(&envelope)), be(expected));
}

#[test]
fn max_tx_cost_wraps_at_256_bits() {
    let envelope = unsigned_envelope_1559(TxKind::Call(Address::ZERO), Bytes::new(), Default::default(), 1, U256::MAX);
    let expected = U256::from(1_000_000_000u64) - U256::from(1u64);
    assert_eq!(max_tx_cost(&decoded_from_envelope(&envelope)), be(expected));
}

#[test]
fn recover_sender_from_envelope_works() {
    let key = signing_key(11);
    let expected_sender = address_of(&key);
    let tx = TxEip1559 {
        chain_id: 1,
        nonce: 0,
        gas_limit: 21000,
        max_fee_per_gas: 1_000_000_000,
        max_priority_fee_per_gas: 1_000_000_000,
        to: TxKind::Call(Address::ZERO),
        value: U256::ZERO,
        access_list: Default::default(),
        input: Bytes::new(),
    };
    let envelope = sign(&key, tx);
    let recovered = recover_sender_from_envelope(&envelope).unwrap();
    assert_eq!(recovered, expected_sender);
}

#[test]
fn unsigned_envelope_has_invalid_signature() {
    let envelope = unsigned_envelope_1559(TxKind::Call(Address::ZERO), Bytes::new(), Default::default(), 21000, U256::ZERO);
    assert_eq!(recover_sender_from_envelope(&envelope), Err(TxPoolError::InvalidSignature));
}

#[test]
fn decode_transaction_reads_the_fields() {
    let (_, envelope, raw) =
        sign_eip1559_tx(12, 7, 3, 50000, 5_000_000_000, U256::from(77u64), Some(Address::repeat_byte(0x11)));
    let decoded = decode_transaction(&raw).unwrap();
    assert_eq!(decoded.chain_id, Some(7));
    assert_eq!(decoded.nonce, 3);
    assert_eq!(decoded.gas_limit, 50000);
    assert_eq!(decoded.max_fee_per_gas, 5_000_000_000);
    assert_eq!(decoded.to, Some([0x11; 20]));
    assert_eq!(decoded.value, be(U256::from(77u64)));
    assert_eq!(decoded.encoded, alloy_rlp::encode(&envelope));
    assert!(decode_transaction(&[0xff, 0x00]).is_err());
}

#[test]
fn pool_insert_decodes_and_adds() {
    let (sender, _, raw) = sign_eip1559_tx(13, 1, 0, 21000, 1_000_000_000, U256::ZERO, Some(Address::ZERO));
    let mut pool = TransactionPool::new(PoolConfig::default());
    assert!(pool.insert(&raw));
    assert_eq!(pool.len(), 1);
    assert_eq!(pool.senders(), vec![sender]);
    assert!(!pool.insert(&raw));
    let ordered = tx_to_ordered(&raw).unwrap();
    assert!(pool.contains(&ordered.hash));
    let block = pool.build(10, &Vec::new());
    assert_eq!(block, vec![ordered.encoded.clone()]);
}

#[test]
fn state_checks_run_in_order() {
    let validator = TransactionValidator::new(1, PoolConfig::default());
    let (_, _, raw) = sign_legacy_tx(3, 1, 5, 21000, 1_000_000_000, U256::from(1u64), Some(Address::ZERO));
    let validated = validator.validate(&raw).unwrap();
    assert!(matches!(
        validated.clone().check_state(Err("down".to_string()), Ok(be(U256::MAX))),
        Err(TxPoolError::StateError(m)) if m == "down"
    ));
    assert!(matches!(
        validated.clone().check_state(Ok(6), Err("down".to_string())),
        Err(TxPoolError::NonceTooLow { got: 5, expected: 6 })
    ));
    assert!(matches!(
        validated.clone().check_state(Ok(5), Err("down".to_string())),
        Err(TxPoolError::StateError(_))
    ));
    assert!(matches!(
        validated.clone().check_state(Ok(5), Ok(be(U256::ZERO))),
        Err(TxPoolError::InsufficientBalance { .. })
    ));
    let ok = validated.clone().check_state(Ok(0), Ok(be(U256::MAX))).unwrap();
    assert_eq!(ok.hash, validated.hash);
}
