//! EVM transaction helpers: the address of a secp256k1 key and signed
//! EIP-1559 transfers, for load generation and tests.

use alloy_consensus::{SignableTransaction, TxEip1559, TxEnvelope};
use alloy_eips::eip2718::Encodable2718;
use alloy_primitives::{Address, Signature, TxKind, U256};
use k256::ecdsa::SigningKey;
use crate::txpool::envelope::{keccak256, keccak256_digest, sha3_keccak256, sha3_keccak256_digest};
use vstd::prelude::*;

verus! {

/// The uncompressed public key of a secp256k1 secret key, if the bytes are
/// one.
pub uninterp spec fn secret_public_key(secret: Seq<u8>) -> Option<Seq<u8>>;

/// The deterministic (RFC 6979) recoverable ECDSA signature of a prehash
/// with a secret key: `r`, `s`, the parity of `y`.
pub uninterp spec fn ecdsa_recoverable_signature(secret: Seq<u8>, prehash: Seq<u8>) -> Option<
    (Seq<u8>, Seq<u8>, bool),
>;

/// The signing payload of an EIP-1559 transfer with zero fees and no data.
pub uninterp spec fn eip1559_transfer_payload(
    chain_id: u64,
    to: Seq<u8>,
    value: Seq<u8>,
    nonce: u64,
    gas_limit: u64,
) -> Seq<u8>;

/// The RLP network encoding of such a transfer with a signature.
pub uninterp spec fn eip1559_transfer_encoding(
    chain_id: u64,
    to: Seq<u8>,
    value: Seq<u8>,
    nonce: u64,
    gas_limit: u64,
    r: Seq<u8>,
    s: Seq<u8>,
    y_odd: bool,
) -> Seq<u8>;

/// The EIP-2718 encoding (type byte, then RLP) of such a transfer with a
/// signature.
pub uninterp spec fn eip1559_transfer_typed_encoding(
    chain_id: u64,
    to: Seq<u8>,
    value: Seq<u8>,
    nonce: u64,
    gas_limit: u64,
    r: Seq<u8>,
    s: Seq<u8>,
    y_odd: bool,
) -> Seq<u8>;

/// The public key of a secret key with k256 (`SigningKey::from_slice`, the
/// verifying key's uncompressed SEC1 encoding). Claimed: the named function
/// of the secret, 65 bytes long when there is one.
#[verifier::external_body]
fn public_key_of_secret(secret: &[u8; 32]) -> (r: Option<Vec<u8>>)
    ensures
        match r {
            Some(k) => secret_public_key(secret@) == Some(k@) && k@.len() == 65,
            None => secret_public_key(secret@) is None,
        },
{
    let key = SigningKey::from_slice(secret).ok()?;
    Some(key.verifying_key().to_encoded_point(false).as_bytes().to_vec())
}

/// k256's `sign_prehash_recoverable`. Claimed: the named function of the
/// secret and the prehash (signing is deterministic).
#[verifier::external_body]
pub(crate) fn sign_prehash(secret: &[u8; 32], prehash: &[u8; 32]) -> (r: Option<([u8; 32], [u8; 32], bool)>)
    ensures
        match r {
            Some((a, b, odd)) => ecdsa_recoverable_signature(secret@, prehash@) == Some((a@, b@, odd)),
            None => ecdsa_recoverable_signature(secret@, prehash@) is None,
        },
{
    let key = SigningKey::from_slice(secret).ok()?;
    let (sig, id) = key.sign_prehash_recoverable(prehash).ok()?;
    Some((sig.r().to_bytes().into(), sig.s().to_bytes().into(), id.is_y_odd()))
}

/// alloy's `encoded_for_signing` of a `TxEip1559` transfer with zero fees,
/// no access list and no data. Claimed: the named function of the fields.
#[verifier::external_body]
pub(crate) fn transfer_signing_payload(chain_id: u64, to: &[u8; 20], value: &[u8; 32], nonce: u64, gas_limit: u64) -> (r: Vec<u8>)
    ensures
        r@ == eip1559_transfer_payload(chain_id, to@, value@, nonce, gas_limit),
{
    let to = TxKind::Call(Address::from(*to));
    let value = U256::from_be_bytes(*value);
    TxEip1559 { chain_id, nonce, gas_limit, to, value, ..Default::default() }.encoded_for_signing()
}

/// `alloy_rlp::encode` of the `TxEnvelope` of such a transfer signed with
/// `r`, `s` and the parity. Claimed: the named function of the fields.
#[verifier::external_body]
fn signed_transfer_encoding(
    chain_id: u64,
    to: &[u8; 20],
    value: &[u8; 32],
    nonce: u64,
    gas_limit: u64,
    r: &[u8; 32],
    s: &[u8; 32],
    y_odd: bool,
) -> (e: Vec<u8>)
    ensures
        e@ == eip1559_transfer_encoding(chain_id, to@, value@, nonce, gas_limit, r@, s@, y_odd),
{
    let to = TxKind::Call(Address::from(*to));
    let value = U256::from_be_bytes(*value);
    let tx = TxEip1559 { chain_id, nonce, gas_limit, to, value, ..Default::default() };
    let sig = Signature::new(U256::from_be_bytes(*r), U256::from_be_bytes(*s), y_odd);
    alloy_rlp::encode(TxEnvelope::from(tx.into_signed(sig)))
}

/// `encode_2718` of the `TxEnvelope` of such a transfer signed with `r`,
/// `s` and the parity. Claimed: the named function of the fields.
#[verifier::external_body]
pub(crate) fn signed_transfer_typed_encoding(
    chain_id: u64,
    to: &[u8; 20],
    value: &[u8; 32],
    nonce: u64,
    gas_limit: u64,
    r: &[u8; 32],
    s: &[u8; 32],
    y_odd: bool,
) -> (e: Vec<u8>)
    ensures
        e@ == eip1559_transfer_typed_encoding(chain_id, to@, value@, nonce, gas_limit, r@, s@, y_odd),
{
    let to = TxKind::Call(Address::from(*to));
    let value = U256::from_be_bytes(*value);
    let tx = TxEip1559 { chain_id, nonce, gas_limit, to, value, ..Default::default() };
    let sig = Signature::new(U256::from_be_bytes(*r), U256::from_be_bytes(*s), y_odd);
    let mut out = Vec::new();
    TxEnvelope::from(tx.into_signed(sig)).encode_2718(&mut out);
    out
}

/// The address of a public key: the last 20 bytes of the Keccak-256 of the
/// key without its prefix byte.
pub open spec fn evm_address(key: Seq<u8>) -> Seq<u8> {
    keccak256_digest(key.subrange(1, 65)).subrange(12, 32)
}

/// The RLP encoding of a simple EIP-1559 transfer signed with a secret key:
/// the signing payload hashed with Keccak-256 and signed recoverably; none
/// where the secret is no key.
pub open spec fn signed_transfer(
    secret: Seq<u8>,
    chain_id: u64,
    to: Seq<u8>,
    value: Seq<u8>,
    nonce: u64,
    gas_limit: u64,
) -> Option<Seq<u8>> {
    let prehash = sha3_keccak256_digest(eip1559_transfer_payload(chain_id, to, value, nonce, gas_limit));
    match ecdsa_recoverable_signature(secret, prehash) {
        Some((a, b, odd)) => Some(eip1559_transfer_encoding(chain_id, to, value, nonce, gas_limit, a, b, odd)),
        None => None,
    }
}

/// EVM-specific helpers for transaction construction.
#[derive(Debug)]
pub struct Evm;

impl Evm {
    /// Derive an Ethereum address from a secp256k1 secret key; none where
    /// the bytes are no secret key.
    pub fn address_from_key(secret: &[u8; 32]) -> (r: Option<[u8; 20]>)
        ensures
            match r {
                Some(a) => secret_public_key(secret@) matches Some(k) && a@ == evm_address(k),
                None => secret_public_key(secret@) is None,
            },
    {
        let key = match public_key_of_secret(secret) {
            Some(k) => k,
            None => {
                return None;
            },
        };
        let mut body: Vec<u8> = Vec::new();
        let mut i: usize = 1;
        while i < 65
            invariant
                1 <= i <= 65,
                key@.len() == 65,
                body@ == key@.subrange(1, i as int),
            decreases 65 - i,
        {
            body.push(key[i]);
            proof {
                assert(key@.subrange(1, i + 1) =~= key@.subrange(1, i as int).push(key@[i as int]));
            }
            i = i + 1;
        }
        let hash = keccak256(body.as_slice());
        let mut out = [0u8; 20];
        let mut j: usize = 0;
        while j < 20
            invariant
                0 <= j <= 20,
                hash@.len() == 32,
                forall|k: int| 0 <= k < j ==> out@[k] == hash@[12 + k],
            decreases 20 - j,
        {
            out[j] = hash[12 + j];
            j = j + 1;
        }
        assert(out@ =~= hash@.subrange(12, 32));
        Some(out)
    }

    /// Sign a simple EIP-1559 transfer (zero fees, no data) and return its
    /// RLP encoding: the payload is hashed with Keccak-256 and signed
    /// recoverably. None where the secret is no key.
    pub fn sign_eip1559_transfer(
        secret: &[u8; 32],
        chain_id: u64,
        to: &[u8; 20],
        value: &[u8; 32],
        nonce: u64,
        gas_limit: u64,
    ) -> (r: Option<Vec<u8>>)
        ensures
            match r {
                Some(e) => signed_transfer(secret@, chain_id, to@, value@, nonce, gas_limit) == Some(e@),
                None => signed_transfer(secret@, chain_id, to@, value@, nonce, gas_limit) is None,
            },
    {
        let payload = transfer_signing_payload(chain_id, to, value, nonce, gas_limit);
        let prehash = sha3_keccak256(payload.as_slice());
        match sign_prehash(secret, &prehash) {
            Some((a, b, odd)) => Some(signed_transfer_encoding(chain_id, to, value, nonce, gas_limit, &a, &b, odd)),
            None => None,
        }
    }
}

} // verus!
