//! A submitted raw transaction as the RPC reports it while it is pending.

use alloy_primitives::{Signature, B256, U256};
use crate::rpc::error::RpcError;
use crate::txpool::envelope::{
    be_value, decode_transaction, decoded_matches, decodes_as_envelope, envelope_signature_of, keccak256, keccak256_digest, u256_from_u128, DecodedTx,
    EnvelopeType,
};
use crate::txpool::validator::{effective_gas_price, spec_effective_gas_price};
use vstd::prelude::*;

verus! {

/// The signer that alloy recovers (rejecting high `s`, as EIP-2 asks) for a
/// signature and the hash it signed.
pub uninterp spec fn alloy_signer(r: Seq<u8>, s: Seq<u8>, y_odd: bool, prehash: Seq<u8>) -> Option<Seq<u8>>;

/// `alloy_consensus::crypto::secp256k1::recover_signer`. Claimed: success
/// and the address are the named function of the signature and the hash;
/// the error text is alloy's message.
#[verifier::external_body]
fn recover_signer(r: &[u8; 32], s: &[u8; 32], y_odd: bool, prehash: &[u8; 32]) -> (a: Result<[u8; 20], String>)
    ensures
        match a {
            Ok(addr) => alloy_signer(r@, s@, y_odd, prehash@) == Some(addr@),
            Err(_) => alloy_signer(r@, s@, y_odd, prehash@) is None,
        },
{
    let sig = Signature::new(U256::from_be_bytes(*r), U256::from_be_bytes(*s), y_odd);
    alloy_consensus::crypto::secp256k1::recover_signer(&sig, B256::from(*prehash))
        .map(|a| a.0.0)
        .map_err(|e| e.to_string())
}

/// Transaction data for JSON-RPC responses (addresses are 20 bytes, amounts
/// 32 big-endian bytes).
#[derive(Clone, Debug, Default)]
pub struct RpcTransaction {
    /// Transaction hash.
    pub hash: [u8; 32],
    /// Nonce.
    pub nonce: u64,
    /// Block hash.
    pub block_hash: Option<[u8; 32]>,
    /// Block number.
    pub block_number: Option<u64>,
    /// Transaction index in block.
    pub transaction_index: Option<u64>,
    /// Sender address.
    pub from: [u8; 20],
    /// Recipient address (None for contract creation).
    pub to: Option<[u8; 20]>,
    /// Value transferred.
    pub value: [u8; 32],
    /// Gas limit.
    pub gas: u64,
    /// Gas price.
    pub gas_price: [u8; 32],
    /// Input data.
    pub input: Vec<u8>,
    /// Transaction type.
    pub tx_type: u64,
    /// Chain ID.
    pub chain_id: Option<u64>,
    /// Max fee per gas (EIP-1559).
    pub max_fee_per_gas: Option<[u8; 32]>,
    /// Max priority fee per gas (EIP-1559).
    pub max_priority_fee_per_gas: Option<[u8; 32]>,
    /// V component of signature.
    pub v: u64,
    /// R component of signature.
    pub r: [u8; 32],
    /// S component of signature.
    pub s: [u8; 32],
}

/// The EIP-2718 type number of a transaction type.
pub open spec fn type_number(t: EnvelopeType) -> u64 {
    match t {
        EnvelopeType::Legacy => 0,
        EnvelopeType::Eip2930 => 1,
        EnvelopeType::Eip1559 => 2,
        EnvelopeType::Eip4844 => 3,
        EnvelopeType::Eip7702 => 4,
    }
}

/// The EIP-2718 type number of a transaction type.
pub fn transaction_type(t: EnvelopeType) -> (n: u64)
    ensures
        n == type_number(t),
{
    match t {
        EnvelopeType::Legacy => 0,
        EnvelopeType::Eip2930 => 1,
        EnvelopeType::Eip1559 => 2,
        EnvelopeType::Eip4844 => 3,
        EnvelopeType::Eip7702 => 4,
    }
}

/// Whether a type carries EIP-1559 fee fields.
pub open spec fn has_fee_caps(t: EnvelopeType) -> bool {
    !(t == EnvelopeType::Legacy || t == EnvelopeType::Eip2930)
}

fn word(x: u128) -> (r: [u8; 32])
    ensures
        be_value(r@) == x,
{
    u256_from_u128(x)
}

/// Whether `r` is the pending view of the decoded `tx` sent by `from`, under
/// the hash `raw_hash` of the submitted bytes.
pub open spec fn pending_view(r: RpcTransaction, tx: DecodedTx, from: Seq<u8>, raw_hash: Seq<u8>) -> bool {
    &&& (r.hash@ == raw_hash)
    &&& (r.nonce == tx.nonce)
    &&& (r.block_hash is None && r.block_number is None && r.transaction_index is None)
    &&& (r.from@ == from)
    &&& (r.to == tx.to)
    &&& (r.value == tx.value)
    &&& (r.gas == tx.gas_limit)
    &&& (be_value(r.gas_price@) == spec_effective_gas_price(tx))
    &&& (r.input@ == tx.input@)
    &&& (r.tx_type == type_number(tx.tx_type))
    &&& (r.chain_id == tx.chain_id)
    &&& (has_fee_caps(tx.tx_type) ==> (r.max_fee_per_gas matches Some(m) && be_value(m@) == tx.max_fee_per_gas))
    &&& (!has_fee_caps(tx.tx_type) ==> r.max_fee_per_gas is None)
    &&& (has_fee_caps(tx.tx_type) ==> match tx.max_priority_fee_per_gas {
        Some(p) => r.max_priority_fee_per_gas matches Some(m) && be_value(m@) == p,
        None => r.max_priority_fee_per_gas is None,
    })
    &&& (!has_fee_caps(tx.tx_type) ==> r.max_priority_fee_per_gas is None)
    &&& (r.v == if tx.y_odd {
        1u64
    } else {
        0u64
    })
    &&& (r.r == tx.signature_r)
    &&& (r.s == tx.signature_s)
}

/// The pending view of a decoded transaction with a recovered sender; the
/// hash is that of the raw bytes as submitted.
pub fn pending_from_decoded(tx: &DecodedTx, from: [u8; 20], raw_hash: [u8; 32]) -> (r: RpcTransaction)
    ensures
        pending_view(r, *tx, from@, raw_hash@),
        r.v == 1 <==> tx.y_odd,
        r.v == 0 <==> !tx.y_odd,
        r.r == tx.signature_r && r.s == tx.signature_s,
{
    let caps = match tx.tx_type {
        EnvelopeType::Legacy | EnvelopeType::Eip2930 => false,
        _ => true,
    };
    let max_fee_per_gas = if caps {
        Some(word(tx.max_fee_per_gas))
    } else {
        None
    };
    let max_priority_fee_per_gas = if caps {
        match tx.max_priority_fee_per_gas {
            Some(p) => Some(word(p)),
            None => None,
        }
    } else {
        None
    };
    RpcTransaction {
        hash: raw_hash,
        nonce: tx.nonce,
        block_hash: None,
        block_number: None,
        transaction_index: None,
        from,
        to: tx.to,
        value: tx.value,
        gas: tx.gas_limit,
        gas_price: word(effective_gas_price(tx)),
        input: tx.input.clone(),
        tx_type: transaction_type(tx.tx_type),
        chain_id: tx.chain_id,
        max_fee_per_gas,
        max_priority_fee_per_gas,
        v: if tx.y_odd { 1 } else { 0 },
        r: tx.signature_r,
        s: tx.signature_s,
    }
}

/// The pending view reports the signature's recovery parity: `v` is 1
/// exactly when the signature's `y` is odd and 0 exactly when it is even,
/// beside the signature's `r` and `s`.
pub proof fn lemma_pending_view_parity(r: RpcTransaction, tx: DecodedTx, from: Seq<u8>, raw_hash: Seq<u8>)
    requires
        pending_view(r, tx, from, raw_hash),
    ensures
        r.v == 1 <==> tx.y_odd,
        r.v == 0 <==> !tx.y_odd,
        r.r == tx.signature_r,
        r.s == tx.signature_s,
{
}

/// A submission that is reported as pending reports the parity of the
/// signature its bytes carry: `v` is 1 exactly when that signature's `y`
/// is odd, else 0.
pub proof fn lemma_submitted_parity(data: Seq<u8>, tx: DecodedTx, raw_hash: Seq<u8>, r: Result<RpcTransaction, RpcError>)
    requires
        decoded_matches(tx, data),
        signer_outcome(tx, raw_hash, r),
        r is Ok,
    ensures
        r->Ok_0.v == 1 <==> envelope_signature_of(data).2,
        r->Ok_0.v == 0 <==> !envelope_signature_of(data).2,
        r->Ok_0.r == envelope_signature_of(data).0,
        r->Ok_0.s == envelope_signature_of(data).1,
{
}

/// What becomes of the decoded `tx`, submitted as bytes with hash
/// `raw_hash`: its pending view when alloy recovers its signer, else an
/// invalid transaction whose message starts "failed to recover signer: ".
pub open spec fn signer_outcome(tx: DecodedTx, raw_hash: Seq<u8>, r: Result<RpcTransaction, RpcError>) -> bool {
    match alloy_signer(tx.signature_r@, tx.signature_s@, tx.y_odd, tx.signing_hash@) {
        Some(from) => r matches Ok(t) && pending_view(t, tx, from, raw_hash),
        None => r matches Err(RpcError::InvalidTransaction(m)) && exists|e: Seq<char>|
            m@ == "failed to recover signer: "@ + e,
    }
}

/// The pending view of submitted raw transaction bytes: bytes that are no
/// envelope, or whose signer does not recover, are an invalid transaction.
pub fn raw_tx_to_pending_rpc(data: &Vec<u8>) -> (r: Result<RpcTransaction, RpcError>)
    ensures
        !decodes_as_envelope(data@) ==> (r matches Err(RpcError::InvalidTransaction(m)) && exists|e: Seq<char>|
            m@ == "failed to decode: "@ + e),
        decodes_as_envelope(data@) && r is Err ==> (r matches Err(RpcError::InvalidTransaction(m)) && exists|
            e: Seq<char>,
        | m@ == "failed to recover signer: "@ + e),
        r matches Ok(t) ==> decodes_as_envelope(data@) && t.hash@ == keccak256_digest(data@),
        r matches Ok(t) ==> ({
            let sig = envelope_signature_of(data@);
            &&& (t.v == 1 <==> sig.2)
            &&& (t.v == 0 <==> !sig.2)
            &&& t.r == sig.0
            &&& t.s == sig.1
        }),
        decodes_as_envelope(data@) ==> exists|tx: DecodedTx|
            #[trigger] decoded_matches(tx, data@) && signer_outcome(tx, keccak256_digest(data@), r),
{
    let tx = match decode_transaction(data.as_slice()) {
        Ok(tx) => tx,
        Err(e) => {
            let mut m = String::from_str("failed to decode: ");
            m.append(e.as_str());
            return Err(RpcError::InvalidTransaction(m));
        },
    };
    let from = match recover_signer(&tx.signature_r, &tx.signature_s, tx.y_odd, &tx.signing_hash) {
        Ok(a) => a,
        Err(e) => {
            let mut m = String::from_str("failed to recover signer: ");
            m.append(e.as_str());
            return Err(RpcError::InvalidTransaction(m));
        },
    };
    let hash = keccak256(data.as_slice());
    Ok(pending_from_decoded(&tx, from, hash))
}

} // verus!
