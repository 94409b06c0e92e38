//! Transaction pool error types.

use crate::text::{decimal, push_decimal, push_str};
use crate::txpool::envelope::{address_text, be_value, checksummed_address, u256_text};
use vstd::prelude::*;

verus! {

/// Errors that can occur during transaction pool operations.
///
/// Addresses are 20 bytes and 256-bit amounts are 32 big-endian bytes.
#[derive(Debug, PartialEq, Eq)]
pub enum TxPoolError {
    /// The pool has reached its capacity limit.
    PoolFull,
    /// The sender has reached their transaction limit.
    SenderFull([u8; 20]),
    /// The transaction exceeds the maximum allowed size.
    TxTooLarge {
        /// Actual transaction size.
        size: usize,
        /// Maximum allowed size.
        max: usize,
    },
    /// The gas price is below the minimum required.
    GasPriceTooLow {
        /// Provided gas price.
        price: u128,
        /// Minimum required gas price.
        min: u128,
    },
    /// The transaction nonce is too low.
    NonceTooLow {
        /// Provided nonce.
        got: u64,
        /// Expected minimum nonce.
        expected: u64,
    },
    /// There is a gap in nonces for this sender.
    NonceGap {
        /// Provided nonce.
        got: u64,
        /// Expected nonce.
        expected: u64,
    },
    /// Insufficient balance to cover transaction costs.
    InsufficientBalance {
        /// Required balance (big-endian).
        need: [u8; 32],
        /// Available balance (big-endian).
        have: [u8; 32],
    },
    /// The chain ID does not match the expected value.
    InvalidChainId {
        /// Provided chain ID.
        got: u64,
        /// Expected chain ID.
        expected: u64,
    },
    /// The transaction signature is invalid.
    InvalidSignature,
    /// Failed to decode the transaction.
    DecodeError(String),
    /// The gas limit is below the intrinsic gas cost.
    IntrinsicGasTooLow {
        /// Provided gas limit.
        limit: u64,
        /// Required intrinsic gas.
        intrinsic: u64,
    },
    /// The transaction already exists in the pool.
    AlreadyExists,
    /// An error occurred while accessing state.
    StateError(String),
    /// Replacement transaction does not have sufficient gas price bump.
    ReplacementUnderpriced,
}

/// The message of an error.
pub open spec fn txpool_error_text(e: TxPoolError) -> Seq<char> {
    match e {
        TxPoolError::PoolFull => "pool is full"@,
        TxPoolError::SenderFull(a) => "sender "@ + checksummed_address(a@) + " has too many transactions"@,
        TxPoolError::TxTooLarge { size, max } => "transaction size "@ + decimal(size as nat)
            + " exceeds maximum "@ + decimal(max as nat),
        TxPoolError::GasPriceTooLow { price, min } => "gas price "@ + decimal(price as nat)
            + " below minimum "@ + decimal(min as nat),
        TxPoolError::NonceTooLow { got, expected } => "nonce too low: got "@ + decimal(got as nat)
            + ", expected at least "@ + decimal(expected as nat),
        TxPoolError::NonceGap { got, expected } => "nonce gap: got "@ + decimal(got as nat)
            + ", expected "@ + decimal(expected as nat),
        TxPoolError::InsufficientBalance { need, have } => "insufficient balance: need "@ + decimal(
            be_value(need@),
        ) + ", have "@ + decimal(be_value(have@)),
        TxPoolError::InvalidChainId { got, expected } => "invalid chain id: got "@ + decimal(got as nat)
            + ", expected "@ + decimal(expected as nat),
        TxPoolError::InvalidSignature => "invalid signature"@,
        TxPoolError::DecodeError(m) => "failed to decode transaction: "@ + m@,
        TxPoolError::IntrinsicGasTooLow { limit, intrinsic } => "gas limit "@ + decimal(limit as nat)
            + " below intrinsic gas "@ + decimal(intrinsic as nat),
        TxPoolError::AlreadyExists => "transaction already exists"@,
        TxPoolError::StateError(m) => "state error: "@ + m@,
        TxPoolError::ReplacementUnderpriced => "replacement transaction underpriced"@,
    }
}

fn two_numbers(a: &str, x: u128, b: &str, y: u128) -> (s: String)
    ensures
        s@ == a@ + decimal(x as nat) + b@ + decimal(y as nat),
{
    let mut s = String::from_str(a);
    push_decimal(&mut s, x);
    push_str(&mut s, b);
    push_decimal(&mut s, y);
    s
}

impl TxPoolError {
    /// The human-readable message of this error.
    pub fn message(&self) -> (s: String)
        ensures
            s@ == txpool_error_text(*self),
    {
        match self {
            TxPoolError::PoolFull => String::from_str("pool is full"),
            TxPoolError::SenderFull(a) => {
                let mut s = String::from_str("sender ");
                let t = address_text(a);
                push_str(&mut s, t.as_str());
                push_str(&mut s, " has too many transactions");
                s
            },
            TxPoolError::TxTooLarge { size, max } => two_numbers(
                "transaction size ",
                *size as u128,
                " exceeds maximum ",
                *max as u128,
            ),
            TxPoolError::GasPriceTooLow { price, min } => two_numbers("gas price ", *price, " below minimum ", *min),
            TxPoolError::NonceTooLow { got, expected } => two_numbers(
                "nonce too low: got ",
                *got as u128,
                ", expected at least ",
                *expected as u128,
            ),
            TxPoolError::NonceGap { got, expected } => two_numbers(
                "nonce gap: got ",
                *got as u128,
                ", expected ",
                *expected as u128,
            ),
            TxPoolError::InsufficientBalance { need, have } => {
                let mut s = String::from_str("insufficient balance: need ");
                let n = u256_text(need);
                push_str(&mut s, n.as_str());
                push_str(&mut s, ", have ");
                let h = u256_text(have);
                push_str(&mut s, h.as_str());
                s
            },
            TxPoolError::InvalidChainId { got, expected } => two_numbers(
                "invalid chain id: got ",
                *got as u128,
                ", expected ",
                *expected as u128,
            ),
            TxPoolError::InvalidSignature => String::from_str("invalid signature"),
            TxPoolError::DecodeError(m) => {
                let mut s = String::from_str("failed to decode transaction: ");
                push_str(&mut s, m.as_str());
                s
            },
            TxPoolError::IntrinsicGasTooLow { limit, intrinsic } => two_numbers(
                "gas limit ",
                *limit as u128,
                " below intrinsic gas ",
                *intrinsic as u128,
            ),
            TxPoolError::AlreadyExists => String::from_str("transaction already exists"),
            TxPoolError::StateError(m) => {
                let mut s = String::from_str("state error: ");
                push_str(&mut s, m.as_str());
                s
            },
            TxPoolError::ReplacementUnderpriced => String::from_str("replacement transaction underpriced"),
        }
    }
}

} // verus!
