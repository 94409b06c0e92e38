//! Configuration of a DKG ceremony. Keys are 32 bytes: the identity key is
//! the ed25519 signing key's seed, the participants' keys are their public
//! keys.

use crate::dkg::network::{ed25519_seed_public_key, seed_public_key};
use vstd::prelude::*;

verus! {

/// Configuration for a Distributed Key Generation (DKG) ceremony.
#[derive(Debug, Clone)]
pub struct DkgConfig {
    /// The validator's private identity key (its seed) used for signing and
    /// authentication.
    pub identity_key: [u8; 32],
    /// This validator's index in the participant set.
    pub validator_index: usize,
    /// Public keys of all validators participating in the DKG ceremony.
    pub participants: Vec<[u8; 32]>,
    /// Minimum number of participants required to reconstruct the secret
    /// (t-of-n).
    pub threshold: u32,
    /// Chain identifier for domain separation.
    pub chain_id: u64,
    /// Directory for persisting DKG state and key shares.
    pub data_dir: String,
    /// Socket address to listen on for P2P communication.
    pub listen_addr: String,
    /// Initial peers to connect to, as (public key, address) pairs.
    pub bootstrap_peers: Vec<([u8; 32], String)>,
    /// Timeout of a DKG protocol round, in milliseconds.
    pub timeout_ms: u64,
}

impl DkgConfig {
    /// Returns the total number of participants (n).
    pub fn n(&self) -> (n: usize)
        ensures
            n == self.participants.len(),
    {
        self.participants.len()
    }

    /// Returns the threshold value (t).
    pub fn t(&self) -> (t: u32)
        ensures
            t == self.threshold,
    {
        self.threshold
    }

    /// Returns this validator's public key derived from the identity key.
    pub fn my_public_key(&self) -> (k: [u8; 32])
        ensures
            k@ == ed25519_seed_public_key(self.identity_key@),
    {
        seed_public_key(&self.identity_key).unwrap()
    }
}

} // verus!
