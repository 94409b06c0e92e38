//! Errors of the distributed key generation ceremony, and their messages.

use crate::text::{decimal, push_decimal, push_str};
use vstd::prelude::*;

verus! {

/// Errors that can occur during Distributed Key Generation (DKG) ceremonies.
#[derive(Debug, Clone)]
pub enum DkgError {
    /// The DKG ceremony failed with a message.
    CeremonyFailed(String),
    /// Participant count mismatch.
    InvalidParticipantCount {
        /// Expected count.
        expected: usize,
        /// Actual count.
        actual: usize,
    },
    /// Invalid threshold for the given participant count.
    InvalidThreshold {
        /// Threshold value.
        threshold: u32,
        /// Number of participants.
        participants: usize,
    },
    /// Network communication error.
    Network(String),
    /// Cryptographic operation error.
    Crypto(String),
    /// Serialization or deserialization error.
    Serialization(String),
    /// I/O error, with the system's message.
    Io(String),
    /// Timeout waiting for DKG completion.
    Timeout,
    /// Missing share for a participant.
    MissingShare,
    /// Invalid dealer log received.
    InvalidDealerLog {
        /// Dealer identifier.
        dealer: String,
    },
    /// Message from unknown sender.
    UnknownSender {
        /// Sender identifier.
        sender: String,
    },
    /// Sender identity mismatch.
    SenderMismatch {
        /// Expected sender.
        expected: String,
        /// Actual sender.
        actual: String,
    },
    /// Unauthorized sender for the message type.
    UnauthorizedSender,
    /// Duplicate message from a dealer.
    DuplicateDealer {
        /// Dealer identifier.
        dealer: String,
    },
    /// Too many dealers exceed the maximum.
    TooManyDealers {
        /// Current count.
        count: usize,
        /// Maximum allowed.
        max: usize,
    },
    /// Session ID mismatch.
    SessionMismatch {
        /// Expected session.
        expected: String,
        /// Received session.
        received: String,
    },
    /// Invalid message format or content.
    InvalidMessage(String),
}

/// The message of an error.
pub open spec fn dkg_error_text(e: DkgError) -> Seq<char> {
    match e {
        DkgError::CeremonyFailed(m) => "DKG ceremony failed: "@ + m@,
        DkgError::InvalidParticipantCount { expected, actual } => "Invalid participant count: expected "@
            + decimal(expected as nat) + ", got "@ + decimal(actual as nat),
        DkgError::InvalidThreshold { threshold, participants } => "Threshold "@ + decimal(
            threshold as nat,
        ) + " is invalid for "@ + decimal(participants as nat) + " participants"@,
        DkgError::Network(m) => "Network error: "@ + m@,
        DkgError::Crypto(m) => "Cryptographic error: "@ + m@,
        DkgError::Serialization(m) => "Serialization error: "@ + m@,
        DkgError::Io(m) => "IO error: "@ + m@,
        DkgError::Timeout => "Timeout waiting for DKG completion"@,
        DkgError::MissingShare => "Missing share for participant"@,
        DkgError::InvalidDealerLog { dealer } => "Invalid dealer log from "@ + dealer@,
        DkgError::UnknownSender { sender } => "Unknown sender: "@ + sender@,
        DkgError::SenderMismatch { expected, actual } => "Sender mismatch: expected "@ + expected@
            + ", got "@ + actual@,
        DkgError::UnauthorizedSender => "Unauthorized sender: only leader can send AllLogs"@,
        DkgError::DuplicateDealer { dealer } => "Duplicate message from dealer: "@ + dealer@,
        DkgError::TooManyDealers { count, max } => "Too many dealers: "@ + decimal(count as nat)
            + " exceeds maximum "@ + decimal(max as nat),
        DkgError::SessionMismatch { expected, received } => "Session mismatch: expected "@
            + expected@ + ", received "@ + received@,
        DkgError::InvalidMessage(m) => "Invalid message: "@ + m@,
    }
}

fn prefixed(prefix: &str, rest: &String) -> (s: String)
    ensures
        s@ == prefix@ + rest@,
{
    let mut s = String::from_str(prefix);
    push_str(&mut s, rest.as_str());
    s
}

impl DkgError {
    /// The human-readable message of this error.
    pub fn message(&self) -> (s: String)
        ensures
            s@ == dkg_error_text(*self),
    {
        match self {
            DkgError::CeremonyFailed(m) => prefixed("DKG ceremony failed: ", m),
            DkgError::InvalidParticipantCount { expected, actual } => {
                let mut s = String::from_str("Invalid participant count: expected ");
                push_decimal(&mut s, *expected as u128);
                push_str(&mut s, ", got ");
                push_decimal(&mut s, *actual as u128);
                s
            },
            DkgError::InvalidThreshold { threshold, participants } => {
                let mut s = String::from_str("Threshold ");
                push_decimal(&mut s, *threshold as u128);
                push_str(&mut s, " is invalid for ");
                push_decimal(&mut s, *participants as u128);
                push_str(&mut s, " participants");
                s
            },
            DkgError::Network(m) => prefixed("Network error: ", m),
            DkgError::Crypto(m) => prefixed("Cryptographic error: ", m),
            DkgError::Serialization(m) => prefixed("Serialization error: ", m),
            DkgError::Io(m) => prefixed("IO error: ", m),
            DkgError::Timeout => String::from_str("Timeout waiting for DKG completion"),
            DkgError::MissingShare => String::from_str("Missing share for participant"),
            DkgError::InvalidDealerLog { dealer } => prefixed("Invalid dealer log from ", dealer),
            DkgError::UnknownSender { sender } => prefixed("Unknown sender: ", sender),
            DkgError::SenderMismatch { expected, actual } => {
                let mut s = prefixed("Sender mismatch: expected ", expected);
                push_str(&mut s, ", got ");
                push_str(&mut s, actual.as_str());
                s
            },
            DkgError::UnauthorizedSender => String::from_str(
                "Unauthorized sender: only leader can send AllLogs",
            ),
            DkgError::DuplicateDealer { dealer } => prefixed("Duplicate message from dealer: ", dealer),
            DkgError::TooManyDealers { count, max } => {
                let mut s = String::from_str("Too many dealers: ");
                push_decimal(&mut s, *count as u128);
                push_str(&mut s, " exceeds maximum ");
                push_decimal(&mut s, *max as u128);
                s
            },
            DkgError::SessionMismatch { expected, received } => {
                let mut s = prefixed("Session mismatch: expected ", expected);
                push_str(&mut s, ", received ");
                push_str(&mut s, received.as_str());
                s
            },
            DkgError::InvalidMessage(m) => prefixed("Invalid message: ", m),
        }
    }
}

} // verus!
