//! Transaction validation: size, decoding, chain id, signature, fee and
//! intrinsic gas checks, then the nonce and balance checks against state
//! that the caller reads.

use crate::txpool::config::PoolConfig;
use crate::txpool::envelope::{
    be_value, decode_transaction, decoded_from_envelope, decoded_matches, decodes_as_envelope, envelope_reading, keccak256,
    keccak256_digest, recover_public_key, recovered_public_key, sha3_keccak256,
    sha3_keccak256_digest, u256_from_u128, u256_lt, u256_wrapping_add, u256_wrapping_mul,
    word_modulus, DecodedTx, EnvelopeType,
};
use crate::txpool::error::TxPoolError;
use crate::txpool::ordering::OrderedTransaction;
use alloy_consensus::TxEnvelope;
use vstd::prelude::*;

verus! {

const TX_BASE_GAS: u64 = 21000;

const TX_DATA_ZERO_GAS: u64 = 4;

const TX_DATA_NON_ZERO_GAS: u64 = 16;

const TX_CREATE_GAS: u64 = 32000;

const TX_ACCESS_LIST_ADDRESS_GAS: u64 = 2400;

const TX_ACCESS_LIST_STORAGE_KEY_GAS: u64 = 1900;

/// Gas charged for call data: 4 per zero byte, 16 per other byte.
pub open spec fn data_gas(input: Seq<u8>) -> int
    decreases input.len(),
{
    if input.len() == 0 {
        0
    } else {
        data_gas(input.drop_last()) + if input.last() == 0 {
            4int
        } else {
            16int
        }
    }
}

/// Gas charged for an access list: 2400 per entry and 1900 per storage key.
pub open spec fn access_list_gas(keys: Seq<usize>) -> int
    decreases keys.len(),
{
    if keys.len() == 0 {
        0
    } else {
        access_list_gas(keys.drop_last()) + 2400 + 1900 * keys.last()
    }
}

/// The intrinsic gas of a transaction: the base cost, call data, contract
/// creation and, except for legacy transactions, the access list.
pub open spec fn spec_intrinsic_gas(tx: DecodedTx) -> int {
    21000 + data_gas(tx.input@) + (if tx.to is None {
        32000int
    } else {
        0int
    }) + (if tx.tx_type == EnvelopeType::Legacy {
        0int
    } else {
        access_list_gas(tx.access_list@)
    })
}

/// The price a transaction is ordered by: the gas price of legacy and
/// EIP-2930 transactions, the maximum fee per gas of the others.
pub open spec fn spec_effective_gas_price(tx: DecodedTx) -> u128 {
    match tx.tx_type {
        EnvelopeType::Legacy | EnvelopeType::Eip2930 => match tx.gas_price {
            Some(p) => p,
            None => tx.max_fee_per_gas,
        },
        _ => tx.max_fee_per_gas,
    }
}

/// The most a transaction can cost: gas limit times price plus value, in
/// 256-bit arithmetic.
pub open spec fn max_cost_value(tx: DecodedTx) -> nat {
    ((tx.gas_limit * spec_effective_gas_price(tx) + be_value(tx.value@)) % word_modulus() as int) as nat
}

/// The address of an uncompressed public key: the last 20 bytes of the
/// Keccak-256 digest of the key without its prefix byte.
pub open spec fn address_of_key(key: Seq<u8>) -> Seq<u8> {
    sha3_keccak256_digest(key.subrange(1, 65)).subrange(12, 32)
}

/// The 64-byte `r || s` form of a transaction's signature.
pub open spec fn signature_bytes(tx: DecodedTx) -> Seq<u8> {
    tx.signature_r@ + tx.signature_s@
}

/// The sender that signature recovery yields, if any.
pub open spec fn recovered_sender(tx: DecodedTx) -> Option<Seq<u8>> {
    match recovered_public_key(tx.signing_hash@, signature_bytes(tx), tx.y_odd) {
        Some(k) => Some(address_of_key(k)),
        None => None,
    }
}

/// The chain id a transaction is checked against: its own, or the
/// validator's where it names none.
pub open spec fn effective_chain_id(tx: DecodedTx, chain_id: u64) -> u64 {
    match tx.chain_id {
        Some(c) => c,
        None => chain_id,
    }
}

/// The first check that a decoded transaction fails, in the order chain id,
/// signature, gas price, intrinsic gas; none when it passes them all.
pub open spec fn decoded_error(chain_id: u64, config: PoolConfig, tx: DecodedTx) -> Option<TxPoolError> {
    let got = effective_chain_id(tx, chain_id);
    if got != chain_id {
        Some(TxPoolError::InvalidChainId { got, expected: chain_id })
    } else if recovered_sender(tx) is None {
        Some(TxPoolError::InvalidSignature)
    } else if spec_effective_gas_price(tx) < config.min_gas_price {
        Some(
            TxPoolError::GasPriceTooLow {
                price: spec_effective_gas_price(tx),
                min: config.min_gas_price,
            },
        )
    } else if tx.gas_limit < spec_intrinsic_gas(tx) {
        Some(
            TxPoolError::IntrinsicGasTooLow {
                limit: tx.gas_limit,
                intrinsic: if spec_intrinsic_gas(tx) > u64::MAX {
                    u64::MAX
                } else {
                    spec_intrinsic_gas(tx) as u64
                },
            },
        )
    } else {
        None
    }
}

/// What checking the decoded transaction `tx` of the raw bytes `raw` gives:
/// the first failed check as the error, or, when all pass, the validated
/// transaction with the hash, sender and prices taken from `tx`.
pub open spec fn check_outcome(
    chain_id: u64,
    config: PoolConfig,
    tx: DecodedTx,
    raw: Seq<u8>,
    r: Result<ValidatedTransaction, TxPoolError>,
) -> bool {
    match r {
        Err(e) => decoded_error(chain_id, config, tx) == Some(e),
        Ok(v) => {
            &&& decoded_error(chain_id, config, tx) is None
            &&& v.hash@ == keccak256_digest(tx.encoded@)
            &&& recovered_sender(tx) == Some(v.sender@)
            &&& v.nonce == tx.nonce
            &&& v.gas_limit == tx.gas_limit
            &&& v.effective_gas_price == spec_effective_gas_price(tx)
            &&& be_value(v.max_cost@) == max_cost_value(tx)
            &&& v.encoded@ == tx.encoded@
            &&& v.raw@ == raw
        },
    }
}

proof fn lemma_data_gas_bounds(s: Seq<u8>)
    ensures
        0 <= data_gas(s) <= 16 * s.len(),
    decreases s.len(),
{
    if s.len() > 0 {
        lemma_data_gas_bounds(s.drop_last());
    }
}

proof fn lemma_access_list_gas_prefix(s: Seq<usize>, i: int)
    requires
        0 <= i <= s.len(),
    ensures
        0 <= access_list_gas(s.take(i)) <= access_list_gas(s),
    decreases s.len(),
{
    if i < s.len() {
        lemma_access_list_gas_prefix(s.drop_last(), i);
        assert(s.drop_last().take(i) =~= s.take(i));
    } else {
        assert(s.take(i) =~= s);
        if s.len() > 0 {
            lemma_access_list_gas_prefix(s.drop_last(), i - 1);
            assert(s.drop_last().take(i - 1) =~= s.drop_last());
        }
    }
}

/// Gas charged for call data.
fn compute_data_gas(input: &Vec<u8>) -> (r: u128)
    ensures
        r == data_gas(input@),
{
    let mut gas: u128 = 0;
    let mut i: usize = 0;
    while i < input.len()
        invariant
            0 <= i <= input.len(),
            gas == data_gas(input@.take(i as int)),
        decreases input.len() - i,
    {
        proof {
            assert(input@.take(i + 1).drop_last() =~= input@.take(i as int));
            lemma_data_gas_bounds(input@.take(i as int));
        }
        if input[i] == 0 {
            gas = gas + TX_DATA_ZERO_GAS as u128;
        } else {
            gas = gas + TX_DATA_NON_ZERO_GAS as u128;
        }
        i = i + 1;
    }
    proof {
        assert(input@.take(input.len() as int) =~= input@);
    }
    gas
}

/// Gas charged for an access list, or none where it exceeds `u64::MAX`.
fn compute_access_list_gas(keys: &Vec<usize>) -> (r: Option<u64>)
    ensures
        match r {
            Some(g) => g == access_list_gas(keys@),
            None => access_list_gas(keys@) > u64::MAX,
        },
{
    let mut gas: u64 = 0;
    let mut i: usize = 0;
    while i < keys.len()
        invariant
            0 <= i <= keys.len(),
            gas == access_list_gas(keys@.take(i as int)),
        decreases keys.len() - i,
    {
        proof {
            assert(keys@.take(i + 1).drop_last() =~= keys@.take(i as int));
        }
        let step: u128 = TX_ACCESS_LIST_ADDRESS_GAS as u128 + (keys[i] as u128) * (TX_ACCESS_LIST_STORAGE_KEY_GAS as u128);
        let next: u128 = gas as u128 + step;
        if next > u64::MAX as u128 {
            proof {
                lemma_access_list_gas_prefix(keys@, i + 1);
            }
            return None;
        }
        gas = next as u64;
        i = i + 1;
    }
    proof {
        assert(keys@.take(keys.len() as int) =~= keys@);
    }
    Some(gas)
}

/// The intrinsic gas of a transaction, or none where it exceeds `u64::MAX`.
pub fn intrinsic_gas_checked(tx: &DecodedTx) -> (r: Option<u64>)
    ensures
        match r {
            Some(g) => g == spec_intrinsic_gas(*tx),
            None => spec_intrinsic_gas(*tx) > u64::MAX,
        },
{
    let data = compute_data_gas(&tx.input);
    proof {
        lemma_access_list_gas_prefix(tx.access_list@, 0);
    }
    let access: u64 = match tx.tx_type {
        EnvelopeType::Legacy => 0,
        _ => match compute_access_list_gas(&tx.access_list) {
            Some(g) => g,
            None => {
                return None;
            },
        },
    };
    let create: u128 = if tx.to.is_none() {
        TX_CREATE_GAS as u128
    } else {
        0
    };
    if data > u64::MAX as u128 {
        return None;
    }
    let total: u128 = TX_BASE_GAS as u128 + data + create + access as u128;
    if total > u64::MAX as u128 {
        None
    } else {
        Some(total as u64)
    }
}

/// The intrinsic gas of a transaction.
pub fn intrinsic_gas(tx: &DecodedTx) -> (r: u64)
    requires
        spec_intrinsic_gas(*tx) <= u64::MAX,
    ensures
        r == spec_intrinsic_gas(*tx),
{
    match intrinsic_gas_checked(tx) {
        Some(g) => g,
        None => 0,
    }
}

/// The price a transaction is ordered by.
pub fn effective_gas_price(tx: &DecodedTx) -> (r: u128)
    ensures
        r == spec_effective_gas_price(*tx),
{
    match tx.tx_type {
        EnvelopeType::Legacy | EnvelopeType::Eip2930 => match tx.gas_price {
            Some(p) => p,
            None => tx.max_fee_per_gas,
        },
        _ => tx.max_fee_per_gas,
    }
}

/// The most a transaction can cost, big-endian: gas limit times price plus
/// value, wrapping at 2^256.
pub fn max_tx_cost(tx: &DecodedTx) -> (r: [u8; 32])
    ensures
        be_value(r@) == max_cost_value(*tx),
{
    let gas_limit = u256_from_u128(tx.gas_limit as u128);
    let price = u256_from_u128(effective_gas_price(tx));
    let product = u256_wrapping_mul(&gas_limit, &price);
    let r = u256_wrapping_add(&product, &tx.value);
    proof {
        vstd::arithmetic::power2::lemma_pow2_pos(256);
        let p = tx.gas_limit * spec_effective_gas_price(*tx);
        let v = be_value(tx.value@) as int;
        vstd::arithmetic::div_mod::lemma_add_mod_noop_right(v, p, word_modulus() as int);
        assert(p + v == v + p);
    }
    r
}

/// The address of an uncompressed 65-byte public key.
pub fn address_from_public_key(key: &Vec<u8>) -> (r: [u8; 20])
    requires
        key@.len() == 65,
    ensures
        r@ == address_of_key(key@),
{
    let mut body: Vec<u8> = Vec::new();
    let mut k: usize = 1;
    while k < 65
        invariant
            1 <= k <= 65,
            key@.len() == 65,
            body@ =~= key@.subrange(1, k as int),
        decreases 65 - k,
    {
        body.push(key[k]);
        k = k + 1;
    }
    let digest = sha3_keccak256(body.as_slice());
    let mut out = [0u8; 20];
    let mut i: usize = 0;
    while i < 20
        invariant
            0 <= i <= 20,
            forall|j: int| 0 <= j < i ==> out@[j] == digest@[12 + j],
        decreases 20 - i,
    {
        out[i] = digest[12 + i];
        i = i + 1;
    }
    assert(out@ =~= digest@.subrange(12, 32));
    out
}

/// The 64-byte `r || s` form of a transaction's signature.
fn signature_array(tx: &DecodedTx) -> (r: [u8; 64])
    ensures
        r@ == signature_bytes(*tx),
{
    let mut out = [0u8; 64];
    let mut i: usize = 0;
    while i < 32
        invariant
            0 <= i <= 32,
            forall|j: int| 0 <= j < i ==> out@[j] == tx.signature_r@[j],
            forall|j: int| 0 <= j < i ==> out@[32 + j] == tx.signature_s@[j],
        decreases 32 - i,
    {
        out[i] = tx.signature_r[i];
        out[32 + i] = tx.signature_s[i];
        i = i + 1;
    }
    assert(out@ =~= tx.signature_r@ + tx.signature_s@);
    out
}

/// Recovers the sender of a transaction from its signature.
pub fn recover_sender(tx: &DecodedTx) -> (r: Option<[u8; 20]>)
    ensures
        match r {
            Some(a) => recovered_sender(*tx) == Some(a@),
            None => recovered_sender(*tx) is None,
        },
{
    let sig = signature_array(tx);
    match recover_public_key(&tx.signing_hash, &sig, tx.y_odd) {
        Some(key) => Some(address_from_public_key(&key)),
        None => None,
    }
}

/// What sender recovery gives for a decoded transaction: its recovered
/// sender, or an invalid signature where none recovers.
pub open spec fn sender_outcome(tx: DecodedTx, r: Result<[u8; 20], TxPoolError>) -> bool {
    match r {
        Ok(a) => recovered_sender(tx) == Some(a@),
        Err(e) => recovered_sender(tx) is None && e == TxPoolError::InvalidSignature,
    }
}

/// Recovers the sender address from a transaction envelope; a signature
/// that does not recover is reported as invalid.
pub fn recover_sender_from_envelope(envelope: &TxEnvelope) -> (r: Result<[u8; 20], TxPoolError>)
    ensures
        r is Err ==> r == Err::<[u8; 20], TxPoolError>(TxPoolError::InvalidSignature),
        exists|tx: DecodedTx, raw: Seq<u8>| #[trigger] envelope_reading(tx, raw) && sender_outcome(tx, r),
{
    let tx = decoded_from_envelope(envelope);
    let ghost raw = choose|raw: Seq<u8>| #[trigger] envelope_reading(tx, raw);
    let r = match recover_sender(&tx) {
        Some(a) => Ok(a),
        None => Err(TxPoolError::InvalidSignature),
    };
    assert(envelope_reading(tx, raw) && sender_outcome(tx, r));
    r
}

/// A transaction that passed the checks that need no state.
#[derive(Debug, Clone)]
pub struct ValidatedTransaction {
    /// Transaction hash.
    pub hash: [u8; 32],
    /// Sender address recovered from signature.
    pub sender: [u8; 20],
    /// Transaction nonce.
    pub nonce: u64,
    /// Gas limit.
    pub gas_limit: u64,
    /// Effective gas price for ordering.
    pub effective_gas_price: u128,
    /// Maximum cost (gas * price + value), big-endian.
    pub max_cost: [u8; 32],
    /// The envelope's network encoding.
    pub encoded: Vec<u8>,
    /// The raw transaction bytes as submitted.
    pub raw: Vec<u8>,
}

/// Validates transactions against protocol rules and the pool's limits.
#[derive(Debug, Clone, Copy)]
pub struct TransactionValidator {
    chain_id: u64,
    config: PoolConfig,
}

impl TransactionValidator {
    /// The chain id transactions must carry.
    pub closed spec fn spec_chain_id(&self) -> u64 {
        self.chain_id
    }

    /// The pool configuration whose limits apply.
    pub closed spec fn spec_config(&self) -> PoolConfig {
        self.config
    }

    /// Creates a new transaction validator.
    pub fn new(chain_id: u64, config: PoolConfig) -> (v: Self)
        ensures
            v.spec_chain_id() == chain_id,
            v.spec_config() == config,
    {
        TransactionValidator { chain_id, config }
    }

    /// Checks a decoded transaction: chain id, signature, gas price and
    /// intrinsic gas, in that order; on success it carries what the pool
    /// needs.
    pub fn check_decoded(&self, tx: &DecodedTx, raw: &Vec<u8>) -> (r: Result<ValidatedTransaction, TxPoolError>)
        ensures
            check_outcome(self.spec_chain_id(), self.spec_config(), *tx, raw@, r),
    {
        let got = match tx.chain_id {
            Some(c) => c,
            None => self.chain_id,
        };
        if got != self.chain_id {
            return Err(TxPoolError::InvalidChainId { got, expected: self.chain_id });
        }
        let sender = match recover_sender(tx) {
            Some(a) => a,
            None => {
                return Err(TxPoolError::InvalidSignature);
            },
        };
        let hash = keccak256(tx.encoded.as_slice());
        let price = effective_gas_price(tx);
        if price < self.config.min_gas_price {
            return Err(TxPoolError::GasPriceTooLow { price, min: self.config.min_gas_price });
        }
        let intrinsic = match intrinsic_gas_checked(tx) {
            Some(g) => g,
            None => {
                return Err(TxPoolError::IntrinsicGasTooLow { limit: tx.gas_limit, intrinsic: u64::MAX });
            },
        };
        if tx.gas_limit < intrinsic {
            return Err(TxPoolError::IntrinsicGasTooLow { limit: tx.gas_limit, intrinsic });
        }
        Ok(
            ValidatedTransaction {
                hash,
                sender,
                nonce: tx.nonce,
                gas_limit: tx.gas_limit,
                effective_gas_price: price,
                max_cost: max_tx_cost(tx),
                encoded: tx.encoded.clone(),
                raw: raw.clone(),
            },
        )
    }

    /// Validates raw transaction bytes up to the state checks: the size
    /// limit, decoding, then [`Self::check_decoded`] on the decoded fields.
    /// The caller then checks the nonce and balance it reads from state.
    pub fn validate(&self, raw: &Vec<u8>) -> (r: Result<ValidatedTransaction, TxPoolError>)
        ensures
            raw.len() > self.spec_config().max_tx_size ==> r == Err::<ValidatedTransaction, TxPoolError>(
                TxPoolError::TxTooLarge { size: raw.len(), max: self.spec_config().max_tx_size },
            ),
            raw.len() <= self.spec_config().max_tx_size && !decodes_as_envelope(raw@) ==> (r matches Err(
                TxPoolError::DecodeError(_),
            )),
            raw.len() <= self.spec_config().max_tx_size && decodes_as_envelope(raw@) ==> exists|
                tx: DecodedTx,
            |
                decoded_matches(tx, raw@) && #[trigger] check_outcome(
                    self.spec_chain_id(),
                    self.spec_config(),
                    tx,
                    raw@,
                    r,
                ),
            r matches Ok(v) ==> v.raw@ == raw@,
    {
        if raw.len() > self.config.max_tx_size {
            return Err(TxPoolError::TxTooLarge { size: raw.len(), max: self.config.max_tx_size });
        }
        let tx = match decode_transaction(raw.as_slice()) {
            Ok(tx) => tx,
            Err(e) => {
                return Err(TxPoolError::DecodeError(e));
            },
        };
        self.check_decoded(&tx, raw)
    }
}

impl ValidatedTransaction {
    /// The nonce check against the sender's nonce in state.
    pub fn check_nonce(&self, state_nonce: u64) -> (r: Result<(), TxPoolError>)
        ensures
            self.nonce < state_nonce ==> r == Err::<(), TxPoolError>(
                TxPoolError::NonceTooLow { got: self.nonce, expected: state_nonce },
            ),
            self.nonce >= state_nonce ==> r is Ok,
    {
        if self.nonce < state_nonce {
            Err(TxPoolError::NonceTooLow { got: self.nonce, expected: state_nonce })
        } else {
            Ok(())
        }
    }

    /// The balance check against the sender's balance in state (big-endian).
    pub fn check_balance(&self, balance: &[u8; 32]) -> (r: Result<(), TxPoolError>)
        ensures
            be_value(balance@) < be_value(self.max_cost@) ==> r == Err::<(), TxPoolError>(
                TxPoolError::InsufficientBalance { need: self.max_cost, have: *balance },
            ),
            be_value(balance@) >= be_value(self.max_cost@) ==> r is Ok,
    {
        if u256_lt(balance, &self.max_cost) {
            Err(TxPoolError::InsufficientBalance { need: self.max_cost, have: *balance })
        } else {
            Ok(())
        }
    }

    /// The checks against the sender's state, in order, given what reading
    /// its nonce and its balance gave: a failed read is a state error, then
    /// the nonce must not be below the state's, then the balance must cover
    /// the maximum cost. On success the transaction is handed back.
    pub fn check_state(self, state_nonce: Result<u64, String>, balance: Result<[u8; 32], String>) -> (r: Result<
        ValidatedTransaction,
        TxPoolError,
    >)
        ensures
            match state_nonce {
                Err(e) => r == Err::<ValidatedTransaction, TxPoolError>(TxPoolError::StateError(e)),
                Ok(n) => if self.nonce < n {
                    r == Err::<ValidatedTransaction, TxPoolError>(
                        TxPoolError::NonceTooLow { got: self.nonce, expected: n },
                    )
                } else {
                    match balance {
                        Err(e) => r == Err::<ValidatedTransaction, TxPoolError>(TxPoolError::StateError(e)),
                        Ok(b) => if be_value(b@) < be_value(self.max_cost@) {
                            r == Err::<ValidatedTransaction, TxPoolError>(
                                TxPoolError::InsufficientBalance { need: self.max_cost, have: b },
                            )
                        } else {
                            r matches Ok(v) && v == self
                        },
                    }
                },
            },
    {
        let n = match state_nonce {
            Ok(n) => n,
            Err(e) => {
                return Err(TxPoolError::StateError(e));
            },
        };
        if let Err(e) = self.check_nonce(n) {
            return Err(e);
        }
        let b = match balance {
            Ok(b) => b,
            Err(e) => {
                return Err(TxPoolError::StateError(e));
            },
        };
        if let Err(e) = self.check_balance(&b) {
            return Err(e);
        }
        Ok(self)
    }

    /// Converts this validated transaction into an ordered transaction for
    /// pool insertion.
    pub fn into_ordered(self, timestamp: u64) -> (o: OrderedTransaction)
        ensures
            o.hash == self.hash,
            o.sender == self.sender,
            o.nonce == self.nonce,
            o.effective_gas_price == self.effective_gas_price,
            o.timestamp == timestamp,
            o.encoded@ == self.encoded@,
    {
        OrderedTransaction::new(
            self.hash,
            self.sender,
            self.nonce,
            self.effective_gas_price,
            timestamp,
            self.encoded,
        )
    }
}

} // verus!
