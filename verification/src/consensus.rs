//! Errors of the consensus application.

use crate::executor::{execution_error_text, ExecutionError};
use crate::hexstr::{hex_chars, hex_encode};
use crate::text::push_str;
use vstd::prelude::*;

verus! {

/// Error type for consensus operations. Digests and state roots are 32
/// bytes; the state database's own error is carried as its text.
#[derive(Debug, Clone, PartialEq, Eq)]
pub enum ConsensusError {
    /// Parent block not found.
    ParentNotFound([u8; 32]),
    /// Snapshot not found for digest.
    SnapshotNotFound([u8; 32]),
    /// Execution failed.
    Execution(String),
    /// State database error.
    StateDb(String),
    /// Block validation failed.
    Validation(String),
    /// State root mismatch.
    StateRootMismatch {
        /// Expected state root.
        expected: [u8; 32],
        /// Actual state root.
        actual: [u8; 32],
    },
}

/// How a digest or root is shown: `0x` and lowercase hex.
pub open spec fn shown(h: Seq<u8>) -> Seq<char> {
    "0x"@ + hex_chars(h)
}

/// The message of a consensus error.
pub open spec fn consensus_error_text(e: ConsensusError) -> Seq<char> {
    match e {
        ConsensusError::ParentNotFound(d) => "parent not found: "@ + shown(d@),
        ConsensusError::SnapshotNotFound(d) => "snapshot not found: "@ + shown(d@),
        ConsensusError::Execution(m) => "execution failed: "@ + m@,
        ConsensusError::StateDb(m) => "state db error: "@ + m@,
        ConsensusError::Validation(m) => "validation failed: "@ + m@,
        ConsensusError::StateRootMismatch { expected, actual } => "state root mismatch: expected "@ + shown(
            expected@,
        ) + ", got "@ + shown(actual@),
    }
}

fn show(h: &[u8; 32]) -> (s: String)
    ensures
        s@ == shown(h@),
{
    let mut s = String::from_str("0x");
    let hex = hex_encode(h.as_slice());
    push_str(&mut s, hex.as_str());
    s
}

fn prefixed(prefix: &str, text: &str) -> (s: String)
    ensures
        s@ == prefix@ + text@,
{
    let mut s = String::from_str(prefix);
    push_str(&mut s, text);
    s
}

impl ConsensusError {
    /// The consensus error a failed block execution is reported as: the
    /// executor's message under `Execution`.
    pub fn from_execution(e: &ExecutionError) -> (r: Self)
        ensures
            r matches ConsensusError::Execution(m) && m@ == execution_error_text(*e),
    {
        ConsensusError::Execution(e.message())
    }

    /// The message of this error.
    pub fn message(&self) -> (s: String)
        ensures
            s@ == consensus_error_text(*self),
    {
        match self {
            ConsensusError::ParentNotFound(d) => prefixed("parent not found: ", show(d).as_str()),
            ConsensusError::SnapshotNotFound(d) => prefixed("snapshot not found: ", show(d).as_str()),
            ConsensusError::Execution(m) => prefixed("execution failed: ", m.as_str()),
            ConsensusError::StateDb(m) => prefixed("state db error: ", m.as_str()),
            ConsensusError::Validation(m) => prefixed("validation failed: ", m.as_str()),
            ConsensusError::StateRootMismatch { expected, actual } => {
                let mut s = prefixed("state root mismatch: expected ", show(expected).as_str());
                push_str(&mut s, ", got ");
                let a = show(actual);
                push_str(&mut s, a.as_str());
                s
            },
        }
    }
}

} // verus!
