//! Devnet bootstrap: the identity keys, peer list and genesis that the
//! setup tool lays out for each validator, and the key shares of a trusted
//! dealer (not secure for production; for testing the validator workflow).

use crate::bytes::eq_bytes32;
use crate::dkg::network::{ed25519_key_decodes, ed25519_key_is_valid, ed25519_seed_public_key, seed_public_key};
use crate::dkg::output::{records_view, OutputRecord, RecordsView, ShareRecord};
use crate::hexstr::{hex_bytes, hex_chars, hex_decode, hex_decodes, hex_encode, lemma_hex_roundtrip};
use crate::runner::{minsig_share_key_matches, minsig_sharing_decodes, share_decodes};
use crate::text::{decimal, push_decimal, push_str};
use crate::textmap::{insert_sorted, sorted_by_key, text_map_view};
use commonware_codec::{Copying, Encode, ReadExt};
use commonware_cryptography::bls12381::dkg::feldman_desmedt::deal;
use commonware_cryptography::bls12381::primitives::sharing::Mode;
use commonware_cryptography::bls12381::primitives::variant::MinSig;
use commonware_cryptography::ed25519;
use commonware_utils::{sys_rng, TryCollect, N3f1};
use vstd::prelude::*;

verus! {

/// The name of a validator's directory and host: `node` and its index.
pub open spec fn node_name(i: nat) -> Seq<char> {
    "node"@ + decimal(i)
}

/// A validator's bootstrap address: its name, a colon, the port.
pub open spec fn node_host(i: nat, port: u16) -> Seq<char> {
    node_name(i) + ":"@ + decimal(port as nat)
}

/// A validator's public key in hex, from its seed.
pub open spec fn seed_key_hex(seed: [u8; 32]) -> Seq<char> {
    hex_chars(ed25519_seed_public_key(seed@))
}

/// The bootstrap peers of validators with these seeds: each public key (in
/// hex) to its validator's address, a later validator winning a shared key.
pub open spec fn bootstrap_map(seeds: Seq<[u8; 32]>, port: u16) -> Map<Seq<char>, Seq<char>>
    decreases seeds.len(),
{
    if seeds.len() == 0 {
        Map::empty()
    } else {
        bootstrap_map(seeds.drop_last(), port).insert(
            seed_key_hex(seeds.last()),
            node_host((seeds.len() - 1) as nat, port),
        )
    }
}

/// The directory name of validator `i`.
pub fn node_dir_name(i: usize) -> (s: String)
    ensures
        s@ == node_name(i as nat),
{
    let mut s = String::from_str("node");
    push_decimal(&mut s, i as u128);
    s
}

/// The bootstrap address of validator `i`.
pub fn node_hostname(i: usize, port: u16) -> (s: String)
    ensures
        s@ == node_host(i as nat, port),
{
    let mut s = node_dir_name(i);
    push_str(&mut s, ":");
    push_decimal(&mut s, port as u128);
    s
}

/// One validator's setup record.
#[derive(Debug, Clone)]
pub struct NodeSetup {
    /// The validator's index.
    pub validator_index: usize,
    /// Its ed25519 public key, hex.
    pub public_key: String,
    /// The port it listens on.
    pub port: u16,
}

/// The peer list shared by all validators.
#[derive(Debug, Clone)]
pub struct PeersLayout {
    /// Number of validators.
    pub validators: usize,
    /// Signing threshold.
    pub threshold: u32,
    /// The validators' public keys, hex, in index order.
    pub participants: Vec<String>,
    /// Public key (hex) to bootstrap address, ascending by key.
    pub bootstrappers: Vec<(String, String)>,
}

/// What the setup tool writes: a record per validator and the peer list.
#[derive(Debug, Clone)]
pub struct DevnetLayout {
    /// The validators' setup records, in index order.
    pub nodes: Vec<NodeSetup>,
    /// The peer list.
    pub peers: PeersLayout,
}

/// Lays out a devnet whose validators have these identity seeds: each
/// validator's public key, its setup record, and the peer list with every
/// validator's address on the base port.
pub fn devnet_layout(seeds: &Vec<[u8; 32]>, threshold: u32, base_port: u16) -> (r: DevnetLayout)
    ensures
        r.peers.validators == seeds.len(),
        r.peers.threshold == threshold,
        r.nodes.len() == seeds.len(),
        r.peers.participants.len() == seeds.len(),
        forall|i: int|
            #![trigger r.nodes[i]]
            0 <= i < seeds.len() ==> {
                &&& r.nodes[i].validator_index == i
                &&& r.nodes[i].public_key@ == seed_key_hex(seeds[i])
                &&& r.nodes[i].port == base_port
                &&& r.peers.participants[i]@ == seed_key_hex(seeds[i])
            },
        sorted_by_key(r.peers.bootstrappers@),
        text_map_view(r.peers.bootstrappers@) == bootstrap_map(seeds@, base_port),
{
    let mut nodes: Vec<NodeSetup> = Vec::new();
    let mut participants: Vec<String> = Vec::new();
    let mut bootstrappers: Vec<(String, String)> = Vec::new();
    let mut i: usize = 0;
    while i < seeds.len()
        invariant
            0 <= i <= seeds.len(),
            nodes.len() == i,
            participants.len() == i,
            forall|j: int|
                #![trigger nodes[j]]
                0 <= j < i ==> {
                    &&& nodes[j].validator_index == j
                    &&& nodes[j].public_key@ == seed_key_hex(seeds[j])
                    &&& nodes[j].port == base_port
                    &&& participants[j]@ == seed_key_hex(seeds[j])
                },
            sorted_by_key(bootstrappers@),
            text_map_view(bootstrappers@) == bootstrap_map(seeds@.take(i as int), base_port),
        decreases seeds.len() - i,
    {
        let key = seed_public_key(&seeds[i]).unwrap();
        let hex = hex_encode(key.as_slice());
        participants.push(hex.clone());
        nodes.push(NodeSetup { validator_index: i, public_key: hex.clone(), port: base_port });
        let host = node_hostname(i, base_port);
        proof {
            let t = seeds@.take(i + 1);
            assert(t.drop_last() =~= seeds@.take(i as int));
            assert(t.last() == seeds[i as int]);
        }
        insert_sorted(&mut bootstrappers, hex, host);
        i = i + 1;
    }
    proof {
        assert(seeds@.take(seeds.len() as int) =~= seeds@);
    }
    DevnetLayout {
        nodes,
        peers: PeersLayout { validators: seeds.len(), threshold, participants, bootstrappers },
    }
}

/// One funded account of the genesis.
#[derive(Debug, Clone)]
pub struct GenesisAllocation {
    /// The account's address, `0x` and hex.
    pub address: String,
    /// Its balance in wei, decimal.
    pub balance: String,
}

/// The genesis of a devnet.
#[derive(Debug, Clone)]
pub struct GenesisConfig {
    /// Chain id.
    pub chain_id: u64,
    /// Creation time, seconds since the Unix epoch.
    pub timestamp: u64,
    /// Funded accounts.
    pub allocations: Vec<GenesisAllocation>,
}

/// The account a devnet genesis funds.
pub open spec fn funded_address() -> Seq<char> {
    "0x0000000000000000000000000000000000000001"@
}

/// Its balance: a million ether, in wei.
pub open spec fn funded_balance() -> Seq<char> {
    "1000000000000000000000000"@
}

/// The genesis of a devnet created at `timestamp`: one funded account.
pub fn devnet_genesis(chain_id: u64, timestamp: u64) -> (g: GenesisConfig)
    ensures
        g.chain_id == chain_id,
        g.timestamp == timestamp,
        g.allocations.len() == 1,
        g.allocations[0].address@ == funded_address(),
        g.allocations[0].balance@ == funded_balance(),
{
    let mut allocations: Vec<GenesisAllocation> = Vec::new();
    allocations.push(
        GenesisAllocation {
            address: String::from_str("0x0000000000000000000000000000000000000001"),
            balance: String::from_str("1000000000000000000000000"),
        },
    );
    GenesisConfig { chain_id, timestamp, allocations }
}

/// Why a trusted dealing could not be made.
#[derive(Debug, Clone, PartialEq, Eq)]
pub enum DealError {
    /// A validator's public key is not hex; the decoder's message.
    InvalidHex { node: usize, message: String },
    /// A validator's public key does not decode as an ed25519 key.
    InvalidPublicKey { node: usize },
    /// Two validators share a public key.
    DuplicateParticipants,
    /// There are no validators to deal to.
    NoParticipants,
}

/// The text a dealing error is reported with.
pub open spec fn deal_error_text(e: DealError) -> Seq<char> {
    match e {
        DealError::InvalidHex { message, .. } => message@,
        DealError::InvalidPublicKey { .. } => "Failed to decode public key"@,
        DealError::DuplicateParticipants => "Duplicate participants"@,
        DealError::NoParticipants => "DKG deal failed: NumPlayers(0)"@,
    }
}

impl DealError {
    /// The text this error is reported with.
    pub fn message(&self) -> (s: String)
        ensures
            s@ == deal_error_text(*self),
    {
        match self {
            DealError::InvalidHex { message, .. } => message.clone(),
            DealError::InvalidPublicKey { .. } => String::from_str("Failed to decode public key"),
            DealError::DuplicateParticipants => String::from_str("Duplicate participants"),
            DealError::NoParticipants => String::from_str("DKG deal failed: NumPlayers(0)"),
        }
    }
}

/// The participant key a validator's hex public key stands for: the first
/// 32 bytes of its hex, where there are that many and they decode as an
/// ed25519 key (reading a key takes its length from the front of the
/// bytes).
pub open spec fn participant_key(h: Seq<char>) -> Option<Seq<u8>> {
    if hex_decodes(h) && hex_bytes(h).len() >= 32 && ed25519_key_decodes(hex_bytes(h).take(32)) {
        Some(hex_bytes(h).take(32))
    } else {
        None
    }
}

/// Validator `n` is the first whose key does not read.
pub open spec fn first_bad_key(hs: Seq<String>, n: int) -> bool {
    &&& 0 <= n < hs.len()
    &&& participant_key(hs[n]@) is None
    &&& forall|j: int| 0 <= j < n ==> participant_key(#[trigger] hs[j]@) is Some
}

/// Every validator's key reads.
pub open spec fn all_keys_read(hs: Seq<String>) -> bool {
    forall|j: int| 0 <= j < hs.len() ==> participant_key(#[trigger] hs[j]@) is Some
}

/// The keys the validators' hex public keys stand for.
pub open spec fn read_keys(hs: Seq<String>) -> Seq<Seq<u8>> {
    hs.map_values(|h: String| participant_key(h@).unwrap())
}

/// No key occurs twice.
pub open spec fn keys_unique(ks: Seq<Seq<u8>>) -> bool {
    forall|i: int, j: int| 0 <= i < j < ks.len() ==> #[trigger] ks[i] != #[trigger] ks[j]
}

/// The errors that reading the validators' keys owes: the first key that
/// does not read (by whether it is hex at all), else a repeated key.
pub open spec fn key_error(hs: Seq<String>, e: DealError) -> bool {
    match e {
        DealError::InvalidHex { node, .. } => first_bad_key(hs, node as int) && !hex_decodes(hs[node as int]@),
        DealError::InvalidPublicKey { node } => first_bad_key(hs, node as int) && hex_decodes(hs[node as int]@),
        DealError::DuplicateParticipants => all_keys_read(hs) && !keys_unique(read_keys(hs)),
        DealError::NoParticipants => false,
    }
}

/// Reads the validators' hex public keys, as the dealer does before
/// dealing; the keys read, or the first key that does not read, else a
/// repeated key: each must be hex of an ed25519 key, and no key may occur twice.
pub fn participant_keys(setup_keys: &Vec<String>) -> (r: Result<Vec<[u8; 32]>, DealError>)
    ensures
        match r {
            Ok(ks) => {
                &&& all_keys_read(setup_keys@)
                &&& keys_unique(read_keys(setup_keys@))
                &&& ks@.map_values(|k: [u8; 32]| k@) == read_keys(setup_keys@)
            },
            Err(e) => key_error(setup_keys@, e),
        },
{
    let mut keys: Vec<[u8; 32]> = Vec::new();
    let mut i: usize = 0;
    while i < setup_keys.len()
        invariant
            0 <= i <= setup_keys.len(),
            keys.len() == i,
            forall|j: int|
                0 <= j < i ==> participant_key(#[trigger] setup_keys[j]@) == Some(keys[j]@),
        decreases setup_keys.len() - i,
    {
        let bytes = match hex_decode(setup_keys[i].as_str()) {
            Ok(b) => b,
            Err(message) => {
                return Err(DealError::InvalidHex { node: i, message });
            },
        };
        if bytes.len() < 32 {
            return Err(DealError::InvalidPublicKey { node: i });
        }
        let mut key = [0u8; 32];
        let mut k: usize = 0;
        while k < 32
            invariant
                0 <= k <= 32,
                bytes@.len() >= 32,
                forall|m: int| 0 <= m < k ==> key@[m] == bytes@[m],
            decreases 32 - k,
        {
            key[k] = bytes[k];
            k = k + 1;
        }
        assert(key@ =~= bytes@.take(32));
        if !ed25519_key_is_valid(&key) {
            return Err(DealError::InvalidPublicKey { node: i });
        }
        keys.push(key);
        i = i + 1;
    }
    let ghost ks = keys@.map_values(|k: [u8; 32]| k@);
    assert(ks =~= read_keys(setup_keys@));
    assert(all_keys_read(setup_keys@));
    let mut a: usize = 0;
    while a < keys.len()
        invariant
            0 <= a <= keys.len(),
            ks == keys@.map_values(|k: [u8; 32]| k@),
            ks == read_keys(setup_keys@),
            all_keys_read(setup_keys@),
            forall|x: int, y: int| 0 <= x < a && x < y < ks.len() ==> #[trigger] ks[x] != #[trigger] ks[y],
        decreases keys.len() - a,
    {
        let mut b: usize = a + 1;
        while b < keys.len()
            invariant
                a < keys.len(),
                a + 1 <= b <= keys.len(),
                ks == keys@.map_values(|k: [u8; 32]| k@),
                ks == read_keys(setup_keys@),
                all_keys_read(setup_keys@),
                forall|x: int, y: int| 0 <= x < a && x < y < ks.len() ==> #[trigger] ks[x] != #[trigger] ks[y],
                forall|y: int| a < y < b ==> ks[a as int] != #[trigger] ks[y],
            decreases keys.len() - b,
        {
            if eq_bytes32(&keys[a], &keys[b]) {
                assert(ks[a as int] == ks[b as int]);
                return Err(DealError::DuplicateParticipants);
            }
            b = b + 1;
        }
        a = a + 1;
    }
    Ok(keys)
}

/// What a trusted dealing hands out: the public polynomial and the group
/// public key, encoded, and each participant's encoded share, in the order
/// of the participants' keys.
#[derive(Debug, Clone)]
pub struct DealtShares {
    /// The encoded public polynomial.
    pub public_polynomial: Vec<u8>,
    /// The encoded group public key.
    pub group_public_key: Vec<u8>,
    /// Each participant's encoded share.
    pub secrets: Vec<Vec<u8>>,
}

/// The encoding of the group public key (the constant term) of the public
/// polynomial that bytes decode to, read for at most `max_participants`
/// participants; none where they do not decode.
pub uninterp spec fn minsig_group_key(polynomial: Seq<u8>, max_participants: u32) -> Option<Seq<u8>>;

/// commonware's trusted dealer (`feldman_desmedt::deal` over BLS12-381 with
/// minimal signatures and the `3f + 1` fault model, from the system's
/// random source) for the participants with these ed25519 keys, with the
/// encodings of the output's public polynomial, of its group key, and of
/// each participant's share, in the order of the keys. The shares are
/// random; claimed of every outcome: a dealing is made exactly when there
/// is a participant, with one share per participant; the polynomial
/// (`Sharing::new` over the committed private polynomial, for as many
/// participants as there are keys) decodes for that many participants and
/// its constant term is the group key; and each share (the private
/// polynomial evaluated at its participant's scalar) decodes and carries
/// the public key the polynomial gives at its index. (The system random
/// source panics where the operating system gives no randomness.)
#[verifier::external_body]
fn deal_shares(keys: &Vec<[u8; 32]>) -> (r: Option<DealtShares>)
    requires
        keys.len() <= u32::MAX,
        forall|i: int| 0 <= i < keys.len() ==> ed25519_key_decodes(#[trigger] keys[i]@),
        forall|i: int, j: int| 0 <= i < j < keys.len() ==> #[trigger] keys[i]@ != #[trigger] keys[j]@,
    ensures
        r is Some <==> keys.len() > 0,
        r matches Some(d) ==> d.secrets.len() == keys.len(),
        r matches Some(d) ==> minsig_sharing_decodes(d.public_polynomial@, keys.len() as u32),
        r matches Some(d) ==> minsig_group_key(d.public_polynomial@, keys.len() as u32) == Some(
            d.group_public_key@,
        ),
        r matches Some(d) ==> forall|i: int|
            0 <= i < keys.len() ==> share_decodes(#[trigger] d.secrets[i]@) && minsig_share_key_matches(
                d.public_polynomial@,
                keys.len() as u32,
                d.secrets[i]@,
            ) == Some(true),
{
    let players: Vec<_> =
        keys.iter().map(|k| ed25519::PublicKey::read(&mut Copying(k.as_slice())).ok()).collect::<Option<_>>()?;
    let (output, shares) = deal::<MinSig, _, N3f1>(sys_rng(), Mode::NonZeroCounter, players.iter().cloned().try_collect().ok()?).ok()?;
    let secrets = players.iter().map(|pk| Some(shares.get_value(pk)?.encode().to_vec())).collect::<Option<_>>()?;
    let public = output.public();
    Some(DealtShares { public_polynomial: public.encode().to_vec(), group_public_key: public.public().encode().to_vec(), secrets })
}

/// The records of participant `i` of a dealing: the public output (group
/// key, polynomial, threshold, the participants and their keys) and its
/// share, indexed by its position among the participants.
pub open spec fn dealt_record(keys: Seq<Seq<u8>>, threshold: u32, d: DealtShares, i: int) -> RecordsView {
    RecordsView {
        group_public_key: hex_chars(d.group_public_key@),
        public_polynomial: hex_chars(d.public_polynomial@),
        threshold,
        participants: keys.len() as usize,
        participant_keys: keys.map_values(|k: Seq<u8>| hex_chars(k)),
        index: i as u32,
        secret: hex_chars(d.secrets[i]@),
    }
}

/// The records are those of a dealing `d` to participants with these keys.
pub open spec fn records_of_dealing(
    recs: Seq<(OutputRecord, ShareRecord)>,
    keys: Seq<Seq<u8>>,
    threshold: u32,
    d: DealtShares,
) -> bool {
    &&& d.secrets.len() == keys.len()
    &&& recs.len() == keys.len()
    &&& forall|i: int|
        0 <= i < recs.len() ==> records_view((#[trigger] recs[i]).0, recs[i].1) == dealt_record(
            keys,
            threshold,
            d,
            i,
        )
}

/// Every record pair holds, in hex, a public polynomial that decodes for
/// `n` participants with the record's group key as its constant term, and
/// a share that decodes and carries the public key the polynomial gives at
/// its index.
pub open spec fn records_sound(recs: Seq<(OutputRecord, ShareRecord)>, n: nat) -> bool {
    forall|i: int|
        0 <= i < recs.len() ==> {
            let poly = hex_bytes((#[trigger] recs[i]).0.public_polynomial@);
            let secret = hex_bytes(recs[i].1.secret@);
            &&& minsig_sharing_decodes(poly, n as u32)
            &&& minsig_group_key(poly, n as u32) == Some(hex_bytes(recs[i].0.group_public_key@))
            &&& share_decodes(secret)
            &&& minsig_share_key_matches(poly, n as u32, secret) == Some(true)
        }
}

/// The records are those of some dealing to participants with these keys.
pub open spec fn dealt_to(recs: Seq<(OutputRecord, ShareRecord)>, keys: Seq<Seq<u8>>, threshold: u32) -> bool {
    exists|d: DealtShares| #[trigger] records_of_dealing(recs, keys, threshold, d)
}

/// The records each participant of a dealing is given.
pub fn dealt_records(keys: &Vec<[u8; 32]>, threshold: u32, dealt: &DealtShares) -> (r: Vec<(OutputRecord, ShareRecord)>)
    requires
        dealt.secrets.len() == keys.len(),
        keys.len() <= u32::MAX,
    ensures
        records_of_dealing(r@, keys@.map_values(|k: [u8; 32]| k@), threshold, *dealt),
{
    let ghost ks = keys@.map_values(|k: [u8; 32]| k@);
    let mut hex_keys: Vec<String> = Vec::new();
    let mut i: usize = 0;
    while i < keys.len()
        invariant
            0 <= i <= keys.len(),
            ks == keys@.map_values(|k: [u8; 32]| k@),
            hex_keys.len() == i,
            forall|j: int| 0 <= j < i ==> (#[trigger] hex_keys[j])@ == hex_chars(ks[j]),
        decreases keys.len() - i,
    {
        hex_keys.push(hex_encode(keys[i].as_slice()));
        i = i + 1;
    }
    let ghost hk = ks.map_values(|k: Seq<u8>| hex_chars(k));
    assert(hex_keys@.map_values(|k: String| k@) =~= hk);
    let group_public_key = hex_encode(dealt.group_public_key.as_slice());
    let public_polynomial = hex_encode(dealt.public_polynomial.as_slice());
    let mut r: Vec<(OutputRecord, ShareRecord)> = Vec::new();
    let mut n: usize = 0;
    while n < keys.len()
        invariant
            0 <= n <= keys.len(),
            keys.len() <= u32::MAX,
            dealt.secrets.len() == keys.len(),
            ks == keys@.map_values(|k: [u8; 32]| k@),
            hex_keys@.map_values(|k: String| k@) == ks.map_values(|k: Seq<u8>| hex_chars(k)),
            group_public_key@ == hex_chars(dealt.group_public_key@),
            public_polynomial@ == hex_chars(dealt.public_polynomial@),
            r.len() == n,
            forall|j: int|
                0 <= j < n ==> records_view((#[trigger] r[j]).0, r[j].1) == dealt_record(
                    ks,
                    threshold,
                    *dealt,
                    j,
                ),
        decreases keys.len() - n,
    {
        let output = OutputRecord {
            group_public_key: group_public_key.clone(),
            public_polynomial: public_polynomial.clone(),
            threshold,
            participants: keys.len(),
            participant_keys: hex_keys.clone(),
        };
        let share = ShareRecord { index: n as u32, secret: hex_encode(dealt.secrets[n].as_slice()) };
        r.push((output, share));
        proof {
            assert(records_view(r[n as int].0, r[n as int].1) == dealt_record(ks, threshold, *dealt, n as int));
        }
        n = n + 1;
    }
    r
}

/// Deals threshold key shares to the validators with these hex public
/// keys, as a trusted dealer: reads the keys (the first key that does not
/// read, else a repeated key, is an error), deals (no validators is an
/// error), and gives each validator its records.
pub fn trusted_deal(setup_keys: &Vec<String>, threshold: u32) -> (r: Result<Vec<(OutputRecord, ShareRecord)>, DealError>)
    requires
        setup_keys.len() <= u32::MAX,
    ensures
        match r {
            Ok(recs) => {
                &&& all_keys_read(setup_keys@)
                &&& keys_unique(read_keys(setup_keys@))
                &&& setup_keys.len() > 0
                &&& dealt_to(recs@, read_keys(setup_keys@), threshold)
                &&& records_sound(recs@, setup_keys.len() as nat)
            },
            Err(DealError::NoParticipants) => setup_keys.len() == 0 && all_keys_read(setup_keys@) && keys_unique(
                read_keys(setup_keys@),
            ),
            Err(e) => key_error(setup_keys@, e),
        },
{
    let keys = match participant_keys(setup_keys) {
        Ok(k) => k,
        Err(e) => {
            return Err(e);
        },
    };
    let ghost ks = keys@.map_values(|k: [u8; 32]| k@);
    assert(ks == read_keys(setup_keys@));
    assert forall|i: int| 0 <= i < keys.len() implies ed25519_key_decodes(#[trigger] keys[i]@) by {
        assert(ks[i] == keys[i]@);
        assert(participant_key(setup_keys[i]@) is Some);
    }
    assert forall|i: int, j: int| 0 <= i < j < keys.len() implies #[trigger] keys[i]@ != #[trigger] keys[j]@ by {
        assert(ks[i] == keys[i]@);
        assert(ks[j] == keys[j]@);
    }
    match deal_shares(&keys) {
        Some(dealt) => {
            let recs = dealt_records(&keys, threshold, &dealt);
            assert(ks.len() == keys.len() && read_keys(setup_keys@).len() == setup_keys.len());
            assert(records_of_dealing(recs@, read_keys(setup_keys@), threshold, dealt));
            proof {
                lemma_hex_roundtrip(dealt.public_polynomial@);
                lemma_hex_roundtrip(dealt.group_public_key@);
                assert forall|i: int| 0 <= i < recs@.len() implies hex_bytes(
                    (#[trigger] recs@[i]).1.secret@,
                ) == dealt.secrets[i]@ && hex_bytes(recs@[i].0.public_polynomial@) == dealt.public_polynomial@
                    && hex_bytes(recs@[i].0.group_public_key@) == dealt.group_public_key@ by {
                    assert(records_view(recs@[i].0, recs@[i].1) == dealt_record(ks, threshold, dealt, i));
                    lemma_hex_roundtrip(dealt.secrets[i]@);
                }
            }
            Ok(recs)
        },
        None => {
            assert(ks.len() == keys.len() && read_keys(setup_keys@).len() == setup_keys.len());
            Err(DealError::NoParticipants)
        },
    }
}

/// Every validator of a dealing gets the same public output: the same group
/// key, polynomial, threshold and participants; only the share differs.
pub proof fn lemma_dealing_shares_public_output(
    recs: Seq<(OutputRecord, ShareRecord)>,
    keys: Seq<Seq<u8>>,
    threshold: u32,
    d: DealtShares,
    i: int,
    j: int,
)
    requires
        records_of_dealing(recs, keys, threshold, d),
        0 <= i < recs.len(),
        0 <= j < recs.len(),
    ensures
        recs[i].0.group_public_key@ == recs[j].0.group_public_key@,
        recs[i].0.public_polynomial@ == recs[j].0.public_polynomial@,
        recs[i].0.threshold == recs[j].0.threshold,
        recs[i].0.participants == recs[j].0.participants,
        recs[i].0.participant_keys@.map_values(|k: String| k@) == recs[j].0.participant_keys@.map_values(
            |k: String| k@,
        ),
        recs[i].1.index == i as u32,
{
    assert(records_view(recs[i].0, recs[i].1) == dealt_record(keys, threshold, d, i));
    assert(records_view(recs[j].0, recs[j].1) == dealt_record(keys, threshold, d, j));
}

/// Every validator is a bootstrap peer: the peer list holds each
/// validator's public key.
pub proof fn lemma_bootstrap_map_holds_every_key(seeds: Seq<[u8; 32]>, port: u16, i: int)
    requires
        0 <= i < seeds.len(),
    ensures
        bootstrap_map(seeds, port).contains_key(seed_key_hex(seeds[i])),
    decreases seeds.len(),
{
    if i < seeds.len() - 1 {
        lemma_bootstrap_map_holds_every_key(seeds.drop_last(), port, i);
        assert(seeds.drop_last()[i] == seeds[i]);
    }
}

} // verus!
