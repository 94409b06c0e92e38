//! The node's command line: which mode a command runs, the configuration
//! overrides it carries, and the reading of the participants of a peers
//! file.

use crate::dkg::config::DkgConfig;
use crate::dkg::network::{ed25519_key_decodes, ed25519_key_is_valid, ed25519_seed_public_key, seed_public_key};
use crate::hexstr::{hex_bytes, hex_chars, hex_decode, hex_decodes, hex_encode};
use vstd::prelude::*;

verus! {

/// A subcommand of the node.
#[derive(Debug, Clone)]
pub enum Command {
    /// Run the DKG ceremony with the participants of a peers file.
    Dkg {
        /// Path of the peers file.
        peers: String,
        /// Ignore persisted ceremony state.
        force_restart: bool,
    },
    /// Run a validator, optionally with bootstrap peers from a peers file.
    Validator {
        /// Path of the peers file.
        peers: Option<String>,
    },
    /// Run a secondary peer listed in a peers file.
    Secondary {
        /// Path of the peers file.
        peers: String,
    },
}

/// The node's command line.
#[derive(Debug, Clone)]
pub struct Cli {
    /// The subcommand; none runs the node in legacy mode.
    pub command: Option<Command>,
    /// Configuration file.
    pub config: Option<String>,
    /// Verbose logging.
    pub verbose: bool,
    /// Chain id overriding the configured one.
    pub chain_id: Option<u64>,
    /// Data directory overriding the configured one.
    pub data_dir: Option<String>,
}

/// The mode a command line runs the node in.
#[derive(Debug, Clone, Copy, PartialEq, Eq, Structural)]
pub enum RunMode {
    /// The DKG ceremony.
    Dkg,
    /// A validator.
    Validator,
    /// A secondary peer.
    Secondary,
    /// The node without a subcommand.
    Legacy,
}

impl Cli {
    /// The mode this command line runs the node in.
    pub fn run(&self) -> (m: RunMode)
        ensures
            m == match self.command {
                Some(Command::Dkg { .. }) => RunMode::Dkg,
                Some(Command::Validator { .. }) => RunMode::Validator,
                Some(Command::Secondary { .. }) => RunMode::Secondary,
                None => RunMode::Legacy,
            },
    {
        match &self.command {
            Some(Command::Dkg { .. }) => RunMode::Dkg,
            Some(Command::Validator { .. }) => RunMode::Validator,
            Some(Command::Secondary { .. }) => RunMode::Secondary,
            None => RunMode::Legacy,
        }
    }

    /// The chain id and data directory after this command line's overrides
    /// of the configured ones.
    pub fn apply_overrides(&self, chain_id: u64, data_dir: String) -> (r: (u64, String))
        ensures
            r.0 == match self.chain_id {
                Some(c) => c,
                None => chain_id,
            },
            r.1@ == match self.data_dir {
                Some(d) => d@,
                None => data_dir@,
            },
    {
        let c = match self.chain_id {
            Some(c) => c,
            None => chain_id,
        };
        let d = match &self.data_dir {
            Some(d) => d.clone(),
            None => data_dir,
        };
        (c, d)
    }
}

/// The position of our key among the participants (the first match).
pub fn validator_index(participants: &Vec<[u8; 32]>, me: &[u8; 32]) -> (r: Option<usize>)
    ensures
        match r {
            Some(i) => i < participants@.len() && participants@[i as int]@ == me@ && forall|j: int|
                0 <= j < i ==> (#[trigger] participants@[j])@ != me@,
            None => forall|j: int| 0 <= j < participants@.len() ==> (#[trigger] participants@[j])@ != me@,
        },
{
    let mut i: usize = 0;
    while i < participants.len()
        invariant
            0 <= i <= participants.len(),
            forall|j: int| 0 <= j < i ==> (#[trigger] participants@[j])@ != me@,
        decreases participants.len() - i,
    {
        if crate::bytes::eq_bytes32(&participants[i], me) {
            return Some(i);
        }
        i = i + 1;
    }
    None
}

/// The text of a bootstrap peer: the key in hex, `@`, the address.
pub open spec fn bootstrapper_text(key: Seq<u8>, addr: Seq<char>) -> Seq<char> {
    hex_chars(key) + "@"@ + addr
}

/// The bootstrap peers in `PUBLIC_KEY_HEX@ADDRESS` form.
pub fn format_bootstrappers(bootstrappers: &Vec<([u8; 32], String)>) -> (r: Vec<String>)
    ensures
        r@.len() == bootstrappers@.len(),
        forall|i: int|
            0 <= i < r@.len() ==> (#[trigger] r@[i])@ == bootstrapper_text(
                bootstrappers@[i].0@,
                bootstrappers@[i].1@,
            ),
{
    let mut r: Vec<String> = Vec::new();
    let mut i: usize = 0;
    while i < bootstrappers.len()
        invariant
            0 <= i <= bootstrappers.len(),
            r@.len() == i,
            forall|k: int|
                0 <= k < i ==> (#[trigger] r@[k])@ == bootstrapper_text(
                    bootstrappers@[k].0@,
                    bootstrappers@[k].1@,
                ),
        decreases bootstrappers.len() - i,
    {
        let mut s = hex_encode(bootstrappers[i].0.as_slice());
        s.append("@");
        s.append(bootstrappers[i].1.as_str());
        r.push(s);
        i = i + 1;
    }
    r
}

/// Why a participant key was refused.
#[derive(Debug, Clone)]
pub enum KeyParseError {
    /// The key is not hex; the decoder's message.
    Hex(String),
    /// Fewer than 32 bytes, or not an ed25519 public key.
    Key,
}

/// Whether a hex text stands for a participant key: its first 32 bytes
/// (the key is read from the head of the bytes) form an ed25519 key.
pub open spec fn key_text_ok(t: Seq<char>) -> bool {
    hex_decodes(t) && hex_bytes(t).len() >= 32 && ed25519_key_decodes(hex_bytes(t).take(32))
}

/// The first 32 bytes.
fn first_32(bytes: &Vec<u8>) -> (pk: [u8; 32])
    requires
        bytes@.len() >= 32,
    ensures
        pk@ == bytes@.take(32),
{
    let mut pk = [0u8; 32];
    let mut j: usize = 0;
    while j < 32
        invariant
            0 <= j <= 32,
            bytes@.len() >= 32,
            forall|k: int| 0 <= k < j ==> pk@[k] == bytes@[k],
        decreases 32 - j,
    {
        pk[j] = bytes[j];
        j = j + 1;
    }
    assert(pk@ =~= bytes@.take(32));
    pk
}

/// Reads participant keys from hex: each key is the first 32 bytes of its
/// decoded text; the first key that fails stops the reading.
pub fn parse_public_keys(keys: &Vec<String>) -> (r: Result<Vec<[u8; 32]>, KeyParseError>)
    ensures
        match r {
            Ok(v) => {
                &&& v@.len() == keys@.len()
                &&& forall|i: int| 0 <= i < keys@.len() ==> key_text_ok(#[trigger] keys@[i]@)
                &&& forall|i: int| 0 <= i < v@.len() ==> (#[trigger] v@[i])@ == hex_bytes(keys@[i]@).take(32)
            },
            Err(_) => exists|i: int| 0 <= i < keys@.len() && !key_text_ok(#[trigger] keys@[i]@),
        },
{
    let mut out: Vec<[u8; 32]> = Vec::new();
    let mut i: usize = 0;
    while i < keys.len()
        invariant
            0 <= i <= keys.len(),
            out@.len() == i,
            forall|k: int| 0 <= k < i ==> key_text_ok(#[trigger] keys@[k]@),
            forall|k: int| 0 <= k < i ==> (#[trigger] out@[k])@ == hex_bytes(keys@[k]@).take(32),
        decreases keys.len() - i,
    {
        let bytes = match hex_decode(keys[i].as_str()) {
            Ok(b) => b,
            Err(e) => {
                return Err(KeyParseError::Hex(e));
            },
        };
        if bytes.len() < 32 {
            return Err(KeyParseError::Key);
        }
        let pk = first_32(&bytes);
        if !ed25519_key_is_valid(&pk) {
            return Err(KeyParseError::Key);
        }
        let ghost o0 = out@;
        out.push(pk);
        proof {
            assert(bytes@ == hex_bytes(keys@[i as int]@));
            assert(key_text_ok(keys@[i as int]@));
            assert forall|k: int| 0 <= k < i + 1 implies (#[trigger] out@[k])@ == hex_bytes(keys@[k]@).take(32) by {
                if k < i {
                    assert(out@[k] == o0[k]);
                }
            }
        }
        i = i + 1;
    }
    Ok(out)
}

/// Whether a key is among the listed ones.
pub fn is_listed(list: &Vec<[u8; 32]>, me: &[u8; 32]) -> (r: bool)
    ensures
        r == exists|j: int| 0 <= j < list@.len() && (#[trigger] list@[j])@ == me@,
{
    match validator_index(list, me) {
        Some(i) => {
            assert(list@[i as int]@ == me@);
            true
        },
        None => false,
    }
}

/// How long a DKG round may take when the ceremony is started from the
/// command line, in milliseconds (five minutes).
pub const DKG_ROUND_TIMEOUT_MS: u64 = 300_000;

/// The error of a node whose identity is not among the participants.
pub open spec fn not_a_participant_text() -> Seq<char> {
    "Our public key not found in participants list"@
}

/// Assembles the DKG ceremony's configuration from the node's identity key
/// (its seed), the peers file and the node's settings: the node's index is
/// the first position of its public key among the participants; a node that
/// is not a participant is refused.
pub fn dkg_config(
    identity_key: [u8; 32],
    participants: Vec<[u8; 32]>,
    threshold: u32,
    bootstrappers: Vec<([u8; 32], String)>,
    chain_id: u64,
    data_dir: String,
    listen_addr: String,
) -> (r: Result<DkgConfig, String>)
    ensures
        match r {
            Ok(c) => {
                &&& c.validator_index < participants@.len()
                &&& participants@[c.validator_index as int]@ == ed25519_seed_public_key(identity_key@)
                &&& forall|j: int|
                    0 <= j < c.validator_index ==> (#[trigger] participants@[j])@ != ed25519_seed_public_key(
                        identity_key@,
                    )
                &&& c.identity_key == identity_key
                &&& c.participants@ == participants@
                &&& c.threshold == threshold
                &&& c.bootstrap_peers@ == bootstrappers@
                &&& c.chain_id == chain_id
                &&& c.data_dir@ == data_dir@
                &&& c.listen_addr@ == listen_addr@
                &&& c.timeout_ms == DKG_ROUND_TIMEOUT_MS
            },
            Err(m) => {
                &&& m@ == not_a_participant_text()
                &&& forall|j: int|
                    0 <= j < participants@.len() ==> (#[trigger] participants@[j])@ != ed25519_seed_public_key(
                        identity_key@,
                    )
            },
        },
{
    let me = seed_public_key(&identity_key).unwrap();
    match validator_index(&participants, &me) {
        Some(validator_index) => Ok(
            DkgConfig {
                identity_key,
                validator_index,
                participants,
                threshold,
                chain_id,
                data_dir,
                listen_addr,
                bootstrap_peers: bootstrappers,
                timeout_ms: DKG_ROUND_TIMEOUT_MS,
            },
        ),
        None => Err(String::from_str("Our public key not found in participants list")),
    }
}

/// The error of a secondary peer whose identity the peers file does not
/// list.
pub open spec fn secondary_not_listed_text() -> Seq<char> {
    "secondary identity is not listed in peers.json secondary_participants"@
}

/// Admits a secondary peer: its identity key's public key must be among
/// the secondary participants.
pub fn secondary_admission(identity_key: [u8; 32], secondary_participants: &Vec<[u8; 32]>) -> (r: Result<(), String>)
    ensures
        r is Ok <==> exists|j: int|
            0 <= j < secondary_participants@.len() && (#[trigger] secondary_participants@[j])@
                == ed25519_seed_public_key(identity_key@),
        r matches Err(m) ==> m@ == secondary_not_listed_text(),
{
    let me = seed_public_key(&identity_key).unwrap();
    if is_listed(secondary_participants, &me) {
        Ok(())
    } else {
        Err(String::from_str("secondary identity is not listed in peers.json secondary_participants"))
    }
}

} // verus!
