//! The fields of a signed transaction envelope that validation reads, and the
//! hashing, signature recovery and 256-bit arithmetic it relies on.

use alloy_consensus::{Transaction, TxEnvelope};
use alloy_eips::eip2718::{Decodable2718, Encodable2718};
use alloy_primitives::U256;
use k256::ecdsa::{RecoveryId, Signature, VerifyingKey};
use sha3::{Digest, Keccak256};
use crate::text::decimal;
use vstd::arithmetic::power2::pow2;
use vstd::prelude::*;

verus! {

#[verifier::external_type_specification]
#[verifier::external_body]
#[verifier::reject_recursive_types(Eip4844)]
pub struct ExEthereumTxEnvelope<Eip4844>(alloy_consensus::EthereumTxEnvelope<Eip4844>);

#[verifier::external_type_specification]
#[verifier::external_body]
#[verifier::reject_recursive_types(T)]
pub struct ExTxEip4844Variant<T>(alloy_consensus::TxEip4844Variant<T>);

#[verifier::external_type_specification]
#[verifier::external_body]
pub struct ExBlobTransactionSidecarVariant(alloy_eips::eip7594::BlobTransactionSidecarVariant);

/// The big-endian value of a byte string.
pub open spec fn be_value(b: Seq<u8>) -> nat
    decreases b.len(),
{
    if b.len() == 0 {
        0
    } else {
        be_value(b.drop_last()) * 256 + b.last() as nat
    }
}

/// Arithmetic on 256-bit words wraps around this modulus.
pub open spec fn word_modulus() -> nat {
    pow2(256)
}

/// Whether bytes decode as an EIP-2718 transaction envelope.
pub uninterp spec fn decodes_as_envelope(raw: Seq<u8>) -> bool;

/// Keccak-256 of bytes, as alloy computes it.
pub uninterp spec fn keccak256_digest(data: Seq<u8>) -> Seq<u8>;

/// Keccak-256 of bytes, as the `sha3` crate computes it.
pub uninterp spec fn sha3_keccak256_digest(data: Seq<u8>) -> Seq<u8>;

/// The uncompressed public key that ECDSA recovery over secp256k1 yields for
/// a prehash, a 64-byte `r || s` signature and the parity of `y`.
pub uninterp spec fn recovered_public_key(prehash: Seq<u8>, signature: Seq<u8>, y_odd: bool) -> Option<
    Seq<u8>,
>;

/// The transaction types that an envelope can carry.
#[derive(Clone, Copy, Debug, PartialEq, Eq, Structural)]
pub enum EnvelopeType {
    Legacy,
    Eip2930,
    Eip1559,
    Eip4844,
    Eip7702,
}

/// An envelope together with EIP-2718 bytes that decode to it: either the
/// bytes it was decoded from or its own encoding. Only this module builds
/// one, in `decode_envelope` and `raw_envelope_of`, so the envelope is
/// always the one that decoding its bytes gives.
pub struct RawEnvelope {
    bytes: Vec<u8>,
    envelope: TxEnvelope,
}

impl View for RawEnvelope {
    type V = Seq<u8>;

    /// The bytes the envelope is read from.
    closed spec fn view(&self) -> Seq<u8> {
        self.bytes@
    }
}

/// The variant of the envelope that `decode_2718` reads from `raw`.
pub uninterp spec fn envelope_type_of(raw: Seq<u8>) -> EnvelopeType;

/// `Transaction::chain_id` of the envelope read from `raw`.
pub uninterp spec fn envelope_chain_id_of(raw: Seq<u8>) -> Option<u64>;

/// `Transaction::nonce` of the envelope read from `raw`.
pub uninterp spec fn envelope_nonce_of(raw: Seq<u8>) -> u64;

/// `Transaction::gas_limit` of the envelope read from `raw`.
pub uninterp spec fn envelope_gas_limit_of(raw: Seq<u8>) -> u64;

/// `Transaction::gas_price` of the envelope read from `raw`.
pub uninterp spec fn envelope_gas_price_of(raw: Seq<u8>) -> Option<u128>;

/// `Transaction::max_fee_per_gas` of the envelope read from `raw`.
pub uninterp spec fn envelope_max_fee_per_gas_of(raw: Seq<u8>) -> u128;

/// `Transaction::max_priority_fee_per_gas` of the envelope read from `raw`.
pub uninterp spec fn envelope_max_priority_fee_per_gas_of(raw: Seq<u8>) -> Option<u128>;

/// `Transaction::to` of the envelope read from `raw`.
pub uninterp spec fn envelope_to_of(raw: Seq<u8>) -> Option<[u8; 20]>;

/// `Transaction::value` of the envelope read from `raw`, big-endian.
pub uninterp spec fn envelope_value_of(raw: Seq<u8>) -> [u8; 32];

/// `Transaction::input` of the envelope read from `raw`.
pub uninterp spec fn envelope_input_of(raw: Seq<u8>) -> Seq<u8>;

/// The storage key counts of `Transaction::access_list` of the envelope read
/// from `raw`.
pub uninterp spec fn envelope_access_list_of(raw: Seq<u8>) -> Seq<usize>;

/// `TxEnvelope::signature` of the envelope read from `raw`: `r`, `s` and
/// the parity of `y`.
pub uninterp spec fn envelope_signature_of(raw: Seq<u8>) -> ([u8; 32], [u8; 32], bool);

/// `TxEnvelope::signature_hash` of the envelope read from `raw`.
pub uninterp spec fn envelope_signature_hash_of(raw: Seq<u8>) -> [u8; 32];

/// `alloy_rlp::encode` of the envelope read from `raw`.
pub uninterp spec fn envelope_encoding_of(raw: Seq<u8>) -> Seq<u8>;

/// Decodes an EIP-2718 envelope with alloy's `TxEnvelope::decode_2718`.
/// Claimed: it succeeds exactly on the bytes for which the named predicate
/// holds, and keeps the bytes beside the envelope; the error text is the
/// decoder's message.
#[verifier::external_body]
pub(crate) fn decode_envelope(raw: &[u8]) -> (r: Result<RawEnvelope, String>)
    ensures
        r is Ok <==> decodes_as_envelope(raw@),
        r matches Ok(e) ==> e@ == raw@,
{
    let mut buf = raw;
    match TxEnvelope::decode_2718(&mut buf) {
        Ok(envelope) => Ok(RawEnvelope { bytes: raw.to_vec(), envelope }),
        Err(e) => Err(e.to_string()),
    }
}

/// `Encodable2718::encoded_2718` of an envelope, kept beside a copy of it.
/// Claimed: the bytes decode as an envelope, and decoding gives this
/// envelope back, which the `RawEnvelope` accessors rest on. alloy-consensus
/// checks exactly this round trip for every variant in its envelope tests
/// (`test_encode_decode_roundtrip` over legacy, EIP-2930, EIP-1559,
/// EIP-4844 and EIP-7702 transactions, and the network form, which wraps
/// the EIP-2718 bytes, for an EIP-4844 transaction with its sidecar). Which
/// bytes they are is left unnamed: they are a function of the envelope, an
/// opaque value.
#[verifier::external_body]
fn raw_envelope_of(env: &TxEnvelope) -> (e: RawEnvelope)
    ensures
        decodes_as_envelope(e@),
{
    RawEnvelope { bytes: env.encoded_2718(), envelope: env.clone() }
}

/// The variant of an envelope (alloy's `TxEnvelope` enum). Claimed: it is
/// the variant of the envelope its bytes decode to.
#[verifier::external_body]
fn envelope_type(e: &RawEnvelope) -> (r: EnvelopeType)
    ensures
        r == envelope_type_of(e@),
{
    match &e.envelope {
        TxEnvelope::Legacy(_) => EnvelopeType::Legacy,
        TxEnvelope::Eip2930(_) => EnvelopeType::Eip2930,
        TxEnvelope::Eip1559(_) => EnvelopeType::Eip1559,
        TxEnvelope::Eip4844(_) => EnvelopeType::Eip4844,
        TxEnvelope::Eip7702(_) => EnvelopeType::Eip7702,
    }
}

/// `Transaction::chain_id` of an envelope. Claimed: it is that of the
/// envelope its bytes decode to.
#[verifier::external_body]
fn envelope_chain_id(e: &RawEnvelope) -> (r: Option<u64>)
    ensures
        r == envelope_chain_id_of(e@),
{
    e.envelope.chain_id()
}

/// `Transaction::nonce` of an envelope. Claimed: it is that of the envelope
/// its bytes decode to.
#[verifier::external_body]
fn envelope_nonce(e: &RawEnvelope) -> (r: u64)
    ensures
        r == envelope_nonce_of(e@),
{
    e.envelope.nonce()
}

/// `Transaction::gas_limit` of an envelope. Claimed: it is that of the
/// envelope its bytes decode to.
#[verifier::external_body]
fn envelope_gas_limit(e: &RawEnvelope) -> (r: u64)
    ensures
        r == envelope_gas_limit_of(e@),
{
    e.envelope.gas_limit()
}

/// `Transaction::gas_price` of an envelope (set for legacy and EIP-2930
/// transactions). Claimed: it is that of the envelope its bytes decode to.
#[verifier::external_body]
fn envelope_gas_price(e: &RawEnvelope) -> (r: Option<u128>)
    ensures
        r == envelope_gas_price_of(e@),
{
    e.envelope.gas_price()
}

/// `Transaction::max_fee_per_gas` of an envelope. Claimed: it is that of
/// the envelope its bytes decode to.
#[verifier::external_body]
fn envelope_max_fee_per_gas(e: &RawEnvelope) -> (r: u128)
    ensures
        r == envelope_max_fee_per_gas_of(e@),
{
    e.envelope.max_fee_per_gas()
}

/// `Transaction::max_priority_fee_per_gas` of an envelope (set for EIP-1559
/// and later transactions). Claimed: it is that of the envelope its bytes
/// decode to.
#[verifier::external_body]
fn envelope_max_priority_fee_per_gas(e: &RawEnvelope) -> (r: Option<u128>)
    ensures
        r == envelope_max_priority_fee_per_gas_of(e@),
{
    e.envelope.max_priority_fee_per_gas()
}

/// `Transaction::to` of an envelope: the callee, none for a contract
/// creation. Claimed: it is that of the envelope its bytes decode to.
#[verifier::external_body]
fn envelope_to(e: &RawEnvelope) -> (r: Option<[u8; 20]>)
    ensures
        r == envelope_to_of(e@),
{
    e.envelope.to().map(|a| a.0.0)
}

/// `Transaction::value` of an envelope, big-endian. Claimed: it is that of
/// the envelope its bytes decode to.
#[verifier::external_body]
fn envelope_value(e: &RawEnvelope) -> (r: [u8; 32])
    ensures
        r == envelope_value_of(e@),
{
    e.envelope.value().to_be_bytes::<32>()
}

/// `Transaction::input` of an envelope. Claimed: it is that of the envelope
/// its bytes decode to.
#[verifier::external_body]
fn envelope_input(e: &RawEnvelope) -> (r: Vec<u8>)
    ensures
        r@ == envelope_input_of(e@),
{
    e.envelope.input().to_vec()
}

/// `Transaction::access_list` of an envelope, as the number of storage keys
/// of each entry (empty where there is none). Claimed: it is that of the
/// envelope its bytes decode to.
#[verifier::external_body]
fn envelope_access_list(e: &RawEnvelope) -> (r: Vec<usize>)
    ensures
        r@ == envelope_access_list_of(e@),
{
    e.envelope.access_list().map(|l| l.iter().map(|item| item.storage_keys.len()).collect()).unwrap_or_default()
}

/// `TxEnvelope::signature` of an envelope: `r` and `s` big-endian and the
/// parity of `y`. Claimed: it is that of the envelope its bytes decode to.
#[verifier::external_body]
fn envelope_signature(e: &RawEnvelope) -> (r: ([u8; 32], [u8; 32], bool))
    ensures
        r == envelope_signature_of(e@),
{
    let sig = e.envelope.signature();
    (sig.r().to_be_bytes::<32>(), sig.s().to_be_bytes::<32>(), sig.v())
}

/// `TxEnvelope::signature_hash`: the hash the sender signed. Claimed: it is
/// that of the envelope its bytes decode to.
#[verifier::external_body]
fn envelope_signature_hash(e: &RawEnvelope) -> (r: [u8; 32])
    ensures
        r == envelope_signature_hash_of(e@),
{
    e.envelope.signature_hash().0
}

/// `alloy_rlp::encode` of an envelope: its network encoding. Claimed: it is
/// that of the envelope its bytes decode to.
#[verifier::external_body]
fn envelope_rlp(e: &RawEnvelope) -> (r: Vec<u8>)
    ensures
        r@ == envelope_encoding_of(e@),
{
    alloy_rlp::encode(&e.envelope)
}

/// alloy's `keccak256`. Claimed: the digest is the named function of the
/// input.
#[verifier::external_body]
pub(crate) fn keccak256(data: &[u8]) -> (r: [u8; 32])
    ensures
        r@ == keccak256_digest(data@),
{
    alloy_primitives::keccak256(data).0
}

/// `Keccak256::digest` of the `sha3` crate. Claimed: the digest is the named
/// function of the input.
#[verifier::external_body]
pub(crate) fn sha3_keccak256(data: &[u8]) -> (r: [u8; 32])
    ensures
        r@ == sha3_keccak256_digest(data@),
{
    Keccak256::digest(data).into()
}

/// Public-key recovery with k256: `Signature::from_slice`, the recovery id
/// of the parity, `VerifyingKey::recover_from_prehash` and the uncompressed
/// SEC1 encoding of the key. Claimed: the result is the named function of
/// the inputs, and a recovered key is 65 bytes long (the uncompressed
/// encoding of a curve point).
#[verifier::external_body]
pub(crate) fn recover_public_key(prehash: &[u8; 32], signature: &[u8; 64], y_odd: bool) -> (r: Option<
    Vec<u8>,
>)
    ensures
        match r {
            Some(k) => recovered_public_key(prehash@, signature@, y_odd) == Some(k@) && k@.len() == 65,
            None => recovered_public_key(prehash@, signature@, y_odd) is None,
        },
{
    let sig = Signature::from_slice(signature).ok()?;
    let id = RecoveryId::new(y_odd, false);
    let key = VerifyingKey::recover_from_prehash(prehash, &sig, id).ok()?;
    Some(key.to_encoded_point(false).as_bytes().to_vec())
}

/// `U256::from` a `u128`, big-endian. Claimed: the value is kept.
#[verifier::external_body]
pub(crate) fn u256_from_u128(x: u128) -> (r: [u8; 32])
    ensures
        be_value(r@) == x,
{
    U256::from(x).to_be_bytes::<32>()
}

/// `U256` multiplication, which wraps. Claimed: the product modulo 2^256.
#[verifier::external_body]
pub(crate) fn u256_wrapping_mul(a: &[u8; 32], b: &[u8; 32]) -> (r: [u8; 32])
    ensures
        be_value(r@) == (be_value(a@) * be_value(b@)) % word_modulus(),
{
    (U256::from_be_bytes(*a) * U256::from_be_bytes(*b)).to_be_bytes::<32>()
}

/// `U256` addition, which wraps. Claimed: the sum modulo 2^256.
#[verifier::external_body]
pub(crate) fn u256_wrapping_add(a: &[u8; 32], b: &[u8; 32]) -> (r: [u8; 32])
    ensures
        be_value(r@) == (be_value(a@) + be_value(b@)) % word_modulus(),
{
    (U256::from_be_bytes(*a) + U256::from_be_bytes(*b)).to_be_bytes::<32>()
}

/// `U256` subtraction, which wraps. Claimed: the difference modulo 2^256.
#[verifier::external_body]
pub(crate) fn u256_wrapping_sub(a: &[u8; 32], b: &[u8; 32]) -> (r: [u8; 32])
    ensures
        be_value(r@) == (be_value(a@) - be_value(b@)) % (word_modulus() as int),
{
    (U256::from_be_bytes(*a) - U256::from_be_bytes(*b)).to_be_bytes::<32>()
}

/// `U256` less-than. Claimed: it compares the values.
#[verifier::external_body]
pub(crate) fn u256_lt(a: &[u8; 32], b: &[u8; 32]) -> (r: bool)
    ensures
        r == (be_value(a@) < be_value(b@)),
{
    U256::from_be_bytes(*a) < U256::from_be_bytes(*b)
}

/// The EIP-55 checksummed `0x` text of an address.
pub uninterp spec fn checksummed_address(addr: Seq<u8>) -> Seq<char>;

/// alloy's `Display` of an `Address`: its EIP-55 checksummed hex. Claimed:
/// the text is the named function of the address.
#[verifier::external_body]
pub(crate) fn address_text(addr: &[u8; 20]) -> (s: String)
    ensures
        s@ == checksummed_address(addr@),
{
    alloy_primitives::Address::from(*addr).to_string()
}

/// `U256`'s `Display`. Claimed: the value in decimal.
#[verifier::external_body]
pub(crate) fn u256_text(v: &[u8; 32]) -> (s: String)
    ensures
        s@ == decimal(be_value(v@)),
{
    U256::from_be_bytes(*v).to_string()
}

/// What validation reads of a signed transaction envelope, as plain values.
#[derive(Debug, Clone)]
pub struct DecodedTx {
    /// The envelope's transaction type.
    pub tx_type: EnvelopeType,
    /// Chain id, if the transaction names one.
    pub chain_id: Option<u64>,
    /// Sender nonce.
    pub nonce: u64,
    /// Gas limit.
    pub gas_limit: u64,
    /// Gas price of legacy and EIP-2930 transactions.
    pub gas_price: Option<u128>,
    /// Maximum fee per gas.
    pub max_fee_per_gas: u128,
    /// Maximum priority fee per gas of EIP-1559 and later transactions.
    pub max_priority_fee_per_gas: Option<u128>,
    /// Callee, none for a contract creation.
    pub to: Option<[u8; 20]>,
    /// Value transferred, big-endian.
    pub value: [u8; 32],
    /// Call data.
    pub input: Vec<u8>,
    /// Number of storage keys of each access list entry.
    pub access_list: Vec<usize>,
    /// Signature `r`, big-endian.
    pub signature_r: [u8; 32],
    /// Signature `s`, big-endian.
    pub signature_s: [u8; 32],
    /// Parity of the signature's `y`.
    pub y_odd: bool,
    /// The hash the sender signed.
    pub signing_hash: [u8; 32],
    /// The envelope's network encoding.
    pub encoded: Vec<u8>,
}

/// Whether `d` holds the fields of the envelope read from `raw`.
pub open spec fn decoded_matches(d: DecodedTx, raw: Seq<u8>) -> bool {
    &&& d.tx_type == envelope_type_of(raw)
    &&& d.chain_id == envelope_chain_id_of(raw)
    &&& d.nonce == envelope_nonce_of(raw)
    &&& d.gas_limit == envelope_gas_limit_of(raw)
    &&& d.gas_price == envelope_gas_price_of(raw)
    &&& d.max_fee_per_gas == envelope_max_fee_per_gas_of(raw)
    &&& d.max_priority_fee_per_gas == envelope_max_priority_fee_per_gas_of(raw)
    &&& d.to == envelope_to_of(raw)
    &&& d.value == envelope_value_of(raw)
    &&& d.input@ == envelope_input_of(raw)
    &&& d.access_list@ == envelope_access_list_of(raw)
    &&& (d.signature_r, d.signature_s, d.y_odd) == envelope_signature_of(raw)
    &&& d.signing_hash == envelope_signature_hash_of(raw)
    &&& d.encoded@ == envelope_encoding_of(raw)
}

/// Whether `d` holds the fields of an envelope read from the bytes `raw`,
/// bytes that decode as one.
pub open spec fn envelope_reading(d: DecodedTx, raw: Seq<u8>) -> bool {
    decodes_as_envelope(raw) && decoded_matches(d, raw)
}

/// Reads the fields of an envelope kept with its bytes.
fn decoded_from_raw(e: &RawEnvelope) -> (d: DecodedTx)
    ensures
        decoded_matches(d, e@),
{
    let (signature_r, signature_s, y_odd) = envelope_signature(e);
    DecodedTx {
        tx_type: envelope_type(e),
        chain_id: envelope_chain_id(e),
        nonce: envelope_nonce(e),
        gas_limit: envelope_gas_limit(e),
        gas_price: envelope_gas_price(e),
        max_fee_per_gas: envelope_max_fee_per_gas(e),
        max_priority_fee_per_gas: envelope_max_priority_fee_per_gas(e),
        to: envelope_to(e),
        value: envelope_value(e),
        input: envelope_input(e),
        access_list: envelope_access_list(e),
        signature_r,
        signature_s,
        y_odd,
        signing_hash: envelope_signature_hash(e),
        encoded: envelope_rlp(e),
    }
}

/// Reads the fields of an envelope: they are those of the envelope that its
/// own EIP-2718 encoding decodes to.
pub fn decoded_from_envelope(env: &TxEnvelope) -> (d: DecodedTx)
    ensures
        exists|raw: Seq<u8>| #[trigger] envelope_reading(d, raw),
{
    let e = raw_envelope_of(env);
    let d = decoded_from_raw(&e);
    assert(envelope_reading(d, e@));
    d
}

/// Decodes raw transaction bytes and reads their fields; fails exactly on
/// bytes that are no envelope, with the decoder's message.
pub fn decode_transaction(raw: &[u8]) -> (r: Result<DecodedTx, String>)
    ensures
        r is Ok <==> decodes_as_envelope(raw@),
        r matches Ok(d) ==> decoded_matches(d, raw@),
{
    match decode_envelope(raw) {
        Ok(e) => Ok(decoded_from_raw(&e)),
        Err(e) => Err(e),
    }
}

} // verus!
