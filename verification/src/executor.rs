//! Errors of block execution.

use crate::hexstr::{hex_chars, hex_encode};
use crate::text::push_str;
use vstd::prelude::*;

verus! {

/// Errors that can occur during block execution. The state database's own
/// error is carried as its text.
#[derive(Debug, Clone, PartialEq, Eq)]
pub enum ExecutionError {
    /// State database error.
    State(String),
    /// Transaction decoding failed.
    TxDecode(String),
    /// Transaction execution failed.
    TxExecution(String),
    /// Invalid transaction.
    InvalidTx(String),
    /// Block validation failed.
    BlockValidation(String),
    /// Code not found for hash.
    CodeNotFound([u8; 32]),
}

/// The message of an execution error; a hash is shown as `0x` and
/// lowercase hex.
pub open spec fn execution_error_text(e: ExecutionError) -> Seq<char> {
    match e {
        ExecutionError::State(m) => "state error: "@ + m@,
        ExecutionError::TxDecode(m) => "failed to decode transaction: "@ + m@,
        ExecutionError::TxExecution(m) => "transaction execution failed: "@ + m@,
        ExecutionError::InvalidTx(m) => "invalid transaction: "@ + m@,
        ExecutionError::BlockValidation(m) => "block validation failed: "@ + m@,
        ExecutionError::CodeNotFound(h) => "code not found: 0x"@ + hex_chars(h@),
    }
}

fn prefixed(prefix: &str, text: &str) -> (s: String)
    ensures
        s@ == prefix@ + text@,
{
    let mut s = String::from_str(prefix);
    push_str(&mut s, text);
    s
}

impl ExecutionError {
    /// The message of this error.
    pub fn message(&self) -> (s: String)
        ensures
            s@ == execution_error_text(*self),
    {
        match self {
            ExecutionError::State(m) => prefixed("state error: ", m.as_str()),
            ExecutionError::TxDecode(m) => prefixed("failed to decode transaction: ", m.as_str()),
            ExecutionError::TxExecution(m) => prefixed("transaction execution failed: ", m.as_str()),
            ExecutionError::InvalidTx(m) => prefixed("invalid transaction: ", m.as_str()),
            ExecutionError::BlockValidation(m) => prefixed("block validation failed: ", m.as_str()),
            ExecutionError::CodeNotFound(h) => {
                let hex = hex_encode(h.as_slice());
                prefixed("code not found: 0x", hex.as_str())
            },
        }
    }
}

} // verus!
