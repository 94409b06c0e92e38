use alloy_consensus::transaction::SignerRecoverable;
use alloy_consensus::{Transaction, TxEnvelope};
use alloy_eips::eip2718::Decodable2718;
use alloy_primitives::{Address, TxKind, U256};
use k256::ecdsa::SigningKey;
use sha3::{Digest, Keccak256};

use kora::loadgen::{
    load_accounts, load_transfers, raw_transaction_param, receiver_address, seed_secret, sign_eip1559_transfer,
    transfer_value, LoadAccount, LOAD_GAS_LIMIT,
};

fn address_of_secret(secret: &[u8; 32]) -> [u8; 20] {
    let key = SigningKey::from_slice(secret).unwrap();
    let point = key.verifying_key().to_encoded_point(false);
    let hash = Keccak256::digest(&point.as_bytes()[1..]);
    let mut out = [0u8; 20];
    out.copy_from_slice(&hash[12..]);
    out
}

#[test]
fn seed_secret_is_the_seed_in_the_last_byte() {
    let mut expected = [0u8; 32];
    expected[31] = 7;
    assert_eq!(seed_secret(7), expected);
}

#[test]
fn receiver_and_value() {
    assert_eq!(receiver_address(), [0xBB; 20]);
    let v = transfer_value();
    assert_eq!(U256::from_be_bytes(v), U256::from(1u64));
    assert_eq!(LOAD_GAS_LIMIT, 21_000);
}

#[test]
fn account_one_has_the_well_known_address() {
    let account = LoadAccount::new(1).unwrap();
    let expected: Address = "0x7E5F4552091A69125d5DfCb7b8C2659029395Bdf".parse().unwrap();
    assert_eq!(Address::from(account.address), expected);
    assert_eq!(account.nonce, 0);
}

#[test]
fn account_zero_is_no_key() {
    assert!(LoadAccount::new(0).is_none());
}

#[test]
fn next_nonce_counts_up_and_wraps() {
    let mut account = LoadAccount::new(2).unwrap();
    assert_eq!(account.next_nonce(), 0);
    assert_eq!(account.next_nonce(), 1);
    assert_eq!(account.nonce, 2);
    account.nonce = u64::MAX;
    assert_eq!(account.next_nonce(), u64::MAX);
    assert_eq!(account.nonce, 0);
}

#[test]
fn accounts_use_seeds_from_one() {
    let accounts = load_accounts(3).unwrap();
    assert_eq!(accounts.len(), 3);
    for (i, account) in accounts.iter().enumerate() {
        let secret = seed_secret(i as u8 + 1);
        assert_eq!(account.secret, secret);
        assert_eq!(account.address, address_of_secret(&secret));
        assert_eq!(account.nonce, 0);
    }
    let expected: Address = "0x2B5AD5c4795c026514f8317c7a215E218DcCD6cF".parse().unwrap();
    assert_eq!(Address::from(accounts[1].address), expected);
}

#[test]
fn accounts_past_255_reach_seed_zero() {
    assert!(load_accounts(255).is_some());
    assert!(load_accounts(256).is_none());
}

#[test]
fn transfers_go_round_robin_with_consecutive_nonces() {
    let mut accounts = load_accounts(3).unwrap();
    let transfers = load_transfers(&mut accounts, 1337, 7);
    let senders: Vec<usize> = transfers.iter().map(|t| t.account).collect();
    let nonces: Vec<u64> = transfers.iter().map(|t| t.nonce).collect();
    assert_eq!(senders, vec![0, 1, 2, 0, 1, 2, 0]);
    assert_eq!(nonces, vec![0, 0, 0, 1, 1, 1, 2]);
    let after: Vec<u64> = accounts.iter().map(|a| a.nonce).collect();
    assert_eq!(after, vec![3, 2, 2]);
}

#[test]
fn transfers_continue_from_the_accounts_nonces() {
    let mut accounts = load_accounts(2).unwrap();
    accounts[1].nonce = 10;
    let transfers = load_transfers(&mut accounts, 1, 3);
    let nonces: Vec<u64> = transfers.iter().map(|t| t.nonce).collect();
    assert_eq!(nonces, vec![0, 10, 1]);
    assert_eq!(accounts[0].nonce, 2);
    assert_eq!(accounts[1].nonce, 11);
}

#[test]
fn transfers_are_signed_typed_transactions() {
    let mut accounts = load_accounts(2).unwrap();
    let senders: Vec<[u8; 20]> = accounts.iter().map(|a| a.address).collect();
    let transfers = load_transfers(&mut accounts, 1337, 3);
    for t in &transfers {
        let raw = t.raw.clone().unwrap();
        assert_eq!(raw[0], 2);
        let envelope = TxEnvelope::decode_2718(&mut raw.as_slice()).unwrap();
        assert_eq!(envelope.chain_id(), Some(1337));
        assert_eq!(envelope.nonce(), t.nonce);
        assert_eq!(envelope.gas_limit(), 21_000);
        assert_eq!(envelope.max_fee_per_gas(), 0);
        assert_eq!(envelope.kind(), TxKind::Call(Address::repeat_byte(0xBB)));
        assert_eq!(envelope.value(), U256::from(1u64));
        assert!(envelope.input().is_empty());
        let signer = envelope.recover_signer().unwrap();
        assert_eq!(signer, Address::from(senders[t.account]));
    }
}

#[test]
fn sign_with_no_key_gives_none() {
    let zero = [0u8; 32];
    assert!(sign_eip1559_transfer(&zero, 1, &[0xBB; 20], &transfer_value(), 0, 21_000).is_none());
}

#[test]
fn raw_param_is_prefixed_hex() {
    assert_eq!(raw_transaction_param(&[0x02, 0xab, 0x00]), "0x02ab00");
    assert_eq!(raw_transaction_param(&[]), "0x");
}
