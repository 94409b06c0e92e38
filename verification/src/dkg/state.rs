//! DKG state kept for crash recovery: the phase reached, the ceremony
//! session, our signed dealer log and the logs received from others, with
//! byte strings stored as hex.

use crate::dkg::error::DkgError;
use crate::hexstr::{hex_bytes, hex_chars, hex_decode, hex_decodes, hex_encode, lemma_hex_roundtrip};
use crate::textmap::{insert_sorted, sorted_by_key, text_map_view};
use vstd::prelude::*;

verus! {

/// Current phase of the DKG protocol.
#[derive(Debug, Clone, Copy, PartialEq, Eq, Structural)]
pub enum DkgPhase {
    /// Waiting for ceremony to start.
    AwaitingStart,
    /// Dealer has been started (commitments/shares generated).
    DealerStarted,
    /// Collecting messages from other participants.
    CollectingMessages,
    /// Dealer has been finalized (signed log created).
    DealerFinalized,
    /// Collecting dealer logs from other participants.
    CollectingLogs,
    /// DKG completed successfully.
    Completed,
    /// DKG failed.
    Failed,
}

/// The name a phase is shown by.
pub open spec fn phase_name(p: DkgPhase) -> Seq<char> {
    match p {
        DkgPhase::AwaitingStart => "AwaitingStart"@,
        DkgPhase::DealerStarted => "DealerStarted"@,
        DkgPhase::CollectingMessages => "CollectingMessages"@,
        DkgPhase::DealerFinalized => "DealerFinalized"@,
        DkgPhase::CollectingLogs => "CollectingLogs"@,
        DkgPhase::Completed => "Completed"@,
        DkgPhase::Failed => "Failed"@,
    }
}

impl DkgPhase {
    /// The name this phase is shown by.
    pub fn name(&self) -> (s: &'static str)
        ensures
            s@ == phase_name(*self),
    {
        match self {
            DkgPhase::AwaitingStart => "AwaitingStart",
            DkgPhase::DealerStarted => "DealerStarted",
            DkgPhase::CollectingMessages => "CollectingMessages",
            DkgPhase::DealerFinalized => "DealerFinalized",
            DkgPhase::CollectingLogs => "CollectingLogs",
            DkgPhase::Completed => "Completed",
            DkgPhase::Failed => "Failed",
        }
    }
}

/// The identity of a DKG ceremony: its id, chain and round.
#[derive(Debug, Clone, Copy, PartialEq, Eq)]
pub struct CeremonySession {
    /// Unique ceremony identifier.
    pub ceremony_id: [u8; 32],
    /// Chain the ceremony runs for.
    pub chain_id: u64,
    /// Ceremony round.
    pub round: u32,
}

/// A ceremony session as persisted: the id in hex.
#[derive(Debug, Clone)]
pub struct SerializedSession {
    /// Ceremony identifier, hex.
    pub ceremony_id: String,
    /// Chain the ceremony runs for.
    pub chain_id: u64,
    /// Ceremony round.
    pub round: u32,
}

/// The session a persisted record restores, as (id, chain, round); none
/// where the id is not hex of 32 bytes.
pub open spec fn restored_session(id: Seq<char>, chain_id: u64, round: u32) -> Option<(Seq<u8>, u64, u32)> {
    if hex_decodes(id) && hex_bytes(id).len() == 32 {
        Some((hex_bytes(id), chain_id, round))
    } else {
        None
    }
}

impl SerializedSession {
    /// The persisted form of a session.
    pub fn from_session(session: &CeremonySession) -> (r: Self)
        ensures
            r.ceremony_id@ == hex_chars(session.ceremony_id@),
            r.chain_id == session.chain_id,
            r.round == session.round,
    {
        SerializedSession {
            ceremony_id: hex_encode(session.ceremony_id.as_slice()),
            chain_id: session.chain_id,
            round: session.round,
        }
    }

    /// The session this record stands for: an id that is not hex is a
    /// serialization error with the decoder's message, one that is not 32
    /// bytes long is "Invalid ceremony_id length".
    pub fn to_session(&self) -> (r: Result<CeremonySession, DkgError>)
        ensures
            match r {
                Ok(c) => restored_session(self.ceremony_id@, self.chain_id, self.round) == Some(
                    (c.ceremony_id@, c.chain_id, c.round),
                ),
                Err(e) => {
                    &&& restored_session(self.ceremony_id@, self.chain_id, self.round) is None
                    &&& e matches DkgError::Serialization(m) && (hex_decodes(self.ceremony_id@)
                        ==> m@ == "Invalid ceremony_id length"@)
                },
            },
    {
        let bytes = match hex_decode(self.ceremony_id.as_str()) {
            Ok(b) => b,
            Err(e) => {
                return Err(DkgError::Serialization(e));
            },
        };
        if bytes.len() != 32 {
            return Err(DkgError::Serialization(String::from_str("Invalid ceremony_id length")));
        }
        let mut ceremony_id = [0u8; 32];
        let mut i: usize = 0;
        while i < 32
            invariant
                0 <= i <= 32,
                bytes@.len() == 32,
                forall|j: int| 0 <= j < i ==> ceremony_id@[j] == bytes@[j],
            decreases 32 - i,
        {
            ceremony_id[i] = bytes[i];
            i = i + 1;
        }
        assert(ceremony_id@ =~= bytes@);
        Ok(CeremonySession { ceremony_id, chain_id: self.chain_id, round: self.round })
    }
}

/// The received logs as a map from hex public key to hex log.
pub open spec fn logs_view(l: Seq<(String, String)>) -> Map<Seq<char>, Seq<char>> {
    text_map_view(l)
}

/// The received logs whose hex decodes, as (key, bytes), in order.
pub open spec fn decoded_logs(l: Seq<(String, String)>) -> Seq<(Seq<char>, Seq<u8>)>
    decreases l.len(),
{
    if l.len() == 0 {
        Seq::empty()
    } else {
        decoded_logs(l.drop_last()) + if hex_decodes(l.last().1@) {
            seq![(l.last().0@, hex_bytes(l.last().1@))]
        } else {
            Seq::empty()
        }
    }
}

/// Persisted DKG state for crash recovery.
#[derive(Debug, Clone)]
pub struct PersistedDkgState {
    /// Current phase of the DKG protocol.
    pub phase: DkgPhase,
    /// Session metadata (serialized).
    pub session: SerializedSession,
    /// Whether the dealer has been started.
    pub dealer_started: bool,
    /// Whether the dealer has been finalized.
    pub dealer_finalized: bool,
    /// Our signed dealer log (serialized bytes as hex).
    pub our_signed_log: Option<String>,
    /// Received dealer logs from other participants (hex pk, hex serialized
    /// log), one entry per key.
    pub received_logs: Vec<(String, String)>,
    /// Timestamp when this state was created (nanos since epoch).
    pub timestamp: u64,
}

impl PersistedDkgState {
    /// The received logs are ordered by sender key, each sender once.
    pub open spec fn wf(&self) -> bool {
        sorted_by_key(self.received_logs@)
    }

    /// Create a new persisted state.
    pub fn new(session: &CeremonySession, timestamp: u64) -> (s: Self)
        ensures
            s.wf(),
            s.phase == DkgPhase::AwaitingStart,
            s.session.ceremony_id@ == hex_chars(session.ceremony_id@),
            s.session.chain_id == session.chain_id,
            s.session.round == session.round,
            !s.dealer_started,
            !s.dealer_finalized,
            s.our_signed_log is None,
            s.received_logs@.len() == 0,
            s.timestamp == timestamp,
    {
        PersistedDkgState {
            phase: DkgPhase::AwaitingStart,
            session: SerializedSession::from_session(session),
            dealer_started: false,
            dealer_finalized: false,
            our_signed_log: None,
            received_logs: Vec::new(),
            timestamp,
        }
    }

    /// Get the ceremony session.
    pub fn session(&self) -> (r: Result<CeremonySession, DkgError>)
        ensures
            match r {
                Ok(c) => restored_session(self.session.ceremony_id@, self.session.chain_id, self.session.round)
                    == Some((c.ceremony_id@, c.chain_id, c.round)),
                Err(e) => restored_session(
                    self.session.ceremony_id@,
                    self.session.chain_id,
                    self.session.round,
                ) is None && e is Serialization,
            },
    {
        self.session.to_session()
    }

    /// Update the session.
    pub fn set_session(&mut self, session: &CeremonySession)
        ensures
            final(self).session.ceremony_id@ == hex_chars(session.ceremony_id@),
            final(self).session.chain_id == session.chain_id,
            final(self).session.round == session.round,
            final(self).phase == old(self).phase,
            final(self).dealer_started == old(self).dealer_started,
            final(self).dealer_finalized == old(self).dealer_finalized,
            final(self).our_signed_log == old(self).our_signed_log,
            final(self).received_logs@ == old(self).received_logs@,
            final(self).timestamp == old(self).timestamp,
    {
        self.session = SerializedSession::from_session(session);
    }

    /// Set our signed dealer log.
    pub fn set_our_signed_log(&mut self, log_bytes: Vec<u8>)
        ensures
            final(self).our_signed_log matches Some(h) && h@ == hex_chars(log_bytes@),
            final(self).phase == old(self).phase,
            final(self).session.ceremony_id@ == old(self).session.ceremony_id@,
            final(self).received_logs@ == old(self).received_logs@,
            final(self).timestamp == old(self).timestamp,
    {
        self.our_signed_log = Some(hex_encode(log_bytes.as_slice()));
    }

    /// Get our signed dealer log bytes; none where there is none or it is not
    /// hex.
    pub fn get_our_signed_log(&self) -> (r: Option<Vec<u8>>)
        ensures
            match self.our_signed_log {
                Some(h) => match r {
                    Some(b) => hex_decodes(h@) && b@ == hex_bytes(h@),
                    None => !hex_decodes(h@),
                },
                None => r is None,
            },
    {
        match &self.our_signed_log {
            Some(h) => match hex_decode(h.as_str()) {
                Ok(b) => Some(b),
                Err(_) => None,
            },
            None => None,
        }
    }

    /// Add a received dealer log, replacing an earlier one from the same
    /// sender; entries stay ordered by sender key.
    pub fn add_received_log(&mut self, pk_hex: String, log_bytes: Vec<u8>)
        requires
            old(self).wf(),
        ensures
            final(self).wf(),
            logs_view(final(self).received_logs@) == logs_view(old(self).received_logs@).insert(
                pk_hex@,
                hex_chars(log_bytes@),
            ),
            final(self).phase == old(self).phase,
            final(self).our_signed_log == old(self).our_signed_log,
            final(self).timestamp == old(self).timestamp,
    {
        let value = hex_encode(log_bytes.as_slice());
        insert_sorted(&mut self.received_logs, pk_hex, value);
    }

    /// Get received logs as bytes, leaving out those that are not hex.
    pub fn get_received_logs(&self) -> (r: Vec<(String, Vec<u8>)>)
        ensures
            r@.map_values(|e: (String, Vec<u8>)| (e.0@, e.1@)) == decoded_logs(self.received_logs@),
    {
        let mut r: Vec<(String, Vec<u8>)> = Vec::new();
        let mut i: usize = 0;
        while i < self.received_logs.len()
            invariant
                0 <= i <= self.received_logs.len(),
                r@.map_values(|e: (String, Vec<u8>)| (e.0@, e.1@)) == decoded_logs(
                    self.received_logs@.take(i as int),
                ),
            decreases self.received_logs.len() - i,
        {
            let ghost r0 = r@;
            proof {
                assert(self.received_logs@.take(i + 1).drop_last() =~= self.received_logs@.take(i as int));
            }
            match hex_decode(self.received_logs[i].1.as_str()) {
                Ok(bytes) => {
                    let k = self.received_logs[i].0.clone();
                    r.push((k, bytes));
                    proof {
                        assert(r@.map_values(|e: (String, Vec<u8>)| (e.0@, e.1@)) =~= r0.map_values(
                            |e: (String, Vec<u8>)| (e.0@, e.1@),
                        ).push((k@, bytes@)));
                    }
                },
                Err(_) => {},
            }
            i = i + 1;
        }
        proof {
            assert(self.received_logs@.take(self.received_logs.len() as int) =~= self.received_logs@);
        }
        r
    }
}

/// A session persisted and read back is the same session.
pub proof fn lemma_session_roundtrip(session: CeremonySession)
    ensures
        restored_session(hex_chars(session.ceremony_id@), session.chain_id, session.round) == Some(
            (session.ceremony_id@, session.chain_id, session.round),
        ),
{
    lemma_hex_roundtrip(session.ceremony_id@);
}

/// A signed log stored as hex is read back as the same bytes.
pub proof fn lemma_signed_log_roundtrip(log: Seq<u8>)
    ensures
        hex_decodes(hex_chars(log)),
        hex_bytes(hex_chars(log)) == log,
{
    lemma_hex_roundtrip(log);
}

/// After a log is added for a sender, that sender's log reads back as the
/// added bytes, and the other senders' logs are as before.
pub proof fn lemma_received_log_roundtrip(logs: Seq<(String, String)>, pk: Seq<char>, log: Seq<u8>)
    ensures
        logs_view(logs).insert(pk, hex_chars(log))[pk] == hex_chars(log),
        hex_bytes(logs_view(logs).insert(pk, hex_chars(log))[pk]) == log,
        forall|k: Seq<char>|
            k != pk && #[trigger] logs_view(logs).contains_key(k) ==> logs_view(logs).insert(
                pk,
                hex_chars(log),
            )[k] == logs_view(logs)[k],
{
    lemma_hex_roundtrip(log);
}

} // verus!
