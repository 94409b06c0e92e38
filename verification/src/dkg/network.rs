//! Framing of DKG messages on the wire: the sender's 32-byte ed25519 public
//! key, the payload length as a little-endian `u32`, then the payload, which
//! a receiver accepts up to 1 MiB; and the peers a node sends to.

use crate::bytes::eq_bytes32;
use crate::dkg::config::DkgConfig;
use crate::dkg::error::DkgError;
use crate::hexstr::{hex_chars, hex_encode};
use crate::keyed::{keyed_map, keys_distinct, lemma_keyed_map_dom, lemma_keyed_map_index, lemma_keyed_map_push, lemma_keyed_map_update};
use crate::text::push_str;
use commonware_codec::ReadExt;
use vstd::prelude::*;

verus! {

/// Largest payload a receiver accepts.
pub const MAX_FRAME_PAYLOAD: usize = 1048576;

/// Length of the sender key at the head of a frame.
pub const SENDER_KEY_LEN: usize = 32;

/// Whether 32 bytes decode as an ed25519 public key.
pub uninterp spec fn ed25519_key_decodes(bytes: Seq<u8>) -> bool;

/// Reads an ed25519 public key with commonware's codec
/// (`<ed25519::PublicKey as ReadExt>::read`). Claimed: success is the named
/// predicate of the bytes.
#[verifier::external_body]
pub(crate) fn ed25519_key_is_valid(bytes: &[u8; 32]) -> (r: bool)
    ensures
        r == ed25519_key_decodes(bytes@),
{
    let mut input = commonware_codec::Copying(bytes.as_slice());
    <commonware_cryptography::ed25519::PublicKey as commonware_codec::ReadExt>::read(&mut input).is_ok()
}

/// The ed25519 public key (32 bytes) of the signing key with a 32-byte
/// seed.
pub uninterp spec fn ed25519_seed_public_key(seed: Seq<u8>) -> Seq<u8>;

/// commonware's ed25519 `PrivateKey` read from a 32-byte seed (the signing
/// key that ed25519-consensus derives from the seed) and the bytes of its
/// `public_key()`. Claimed: reading 32 bytes always succeeds, and the key is
/// the named function of the seed.
#[verifier::external_body]
pub(crate) fn seed_public_key(seed: &[u8; 32]) -> (r: Option<[u8; 32]>)
    ensures
        r is Some,
        r.unwrap()@ == ed25519_seed_public_key(seed@),
{
    let key = commonware_cryptography::ed25519::PrivateKey::read(&mut commonware_codec::Copying(seed.as_slice())).ok()?;
    commonware_cryptography::Signer::public_key(&key).as_ref().try_into().ok()
}

/// The four little-endian bytes of a `u32`.
pub open spec fn le_bytes(n: u32) -> Seq<u8> {
    seq![(n % 256) as u8, ((n / 256) % 256) as u8, ((n / 65536) % 256) as u8, (n / 16777216) as u8]
}

/// The value of four little-endian bytes.
pub open spec fn le_value(b: Seq<u8>) -> nat {
    b[0] as nat + 256 * (b[1] as nat) + 65536 * (b[2] as nat) + 16777216 * (b[3] as nat)
}

/// A frame: sender key, little-endian payload length, payload.
pub open spec fn frame_bytes(sender: Seq<u8>, payload: Seq<u8>) -> Seq<u8> {
    sender + le_bytes(payload.len() as u32) + payload
}

/// A received DKG message: its sender's public key and payload.
#[derive(Debug, Clone)]
pub struct Envelope {
    /// The sender's ed25519 public key.
    pub from: [u8; 32],
    /// The message payload.
    pub payload: Vec<u8>,
}

fn le_u32_bytes(n: u32) -> (r: [u8; 4])
    ensures
        r@ == le_bytes(n),
{
    let r = [(n % 256) as u8, ((n / 256) % 256) as u8, ((n / 65536) % 256) as u8, (n / 16777216) as u8];
    assert(r@ =~= le_bytes(n));
    r
}

/// Frames a message for sending: our public key, the payload length and
/// the payload.
pub fn encode_frame(sender: &[u8; 32], payload: &Vec<u8>) -> (r: Vec<u8>)
    requires
        payload.len() <= u32::MAX,
    ensures
        r@ == frame_bytes(sender@, payload@),
{
    let mut r: Vec<u8> = Vec::new();
    let mut i: usize = 0;
    while i < 32
        invariant
            0 <= i <= 32,
            r@ == sender@.take(i as int),
        decreases 32 - i,
    {
        r.push(sender[i]);
        proof {
            assert(sender@.take(i + 1) =~= sender@.take(i as int).push(sender@[i as int]));
        }
        i = i + 1;
    }
    let len = le_u32_bytes(payload.len() as u32);
    let mut j: usize = 0;
    while j < 4
        invariant
            0 <= j <= 4,
            sender@.len() == 32,
            r@ == sender@ + len@.take(j as int),
        decreases 4 - j,
    {
        r.push(len[j]);
        proof {
            assert(len@.take(j + 1) =~= len@.take(j as int).push(len@[j as int]));
            assert(sender@ + len@.take(j + 1) =~= (sender@ + len@.take(j as int)).push(len@[j as int]));
        }
        j = j + 1;
    }
    let mut k: usize = 0;
    while k < payload.len()
        invariant
            0 <= k <= payload.len(),
            len@ == le_bytes(payload.len() as u32),
            r@ == sender@ + len@ + payload@.take(k as int),
        decreases payload.len() - k,
    {
        r.push(payload[k]);
        proof {
            assert(payload@.take(k + 1) =~= payload@.take(k as int).push(payload@[k as int]));
            assert(sender@ + len@ + payload@.take(k + 1) =~= (sender@ + len@ + payload@.take(k as int)).push(
                payload@[k as int],
            ));
        }
        k = k + 1;
    }
    proof {
        assert(len@.take(4) =~= len@);
        assert(payload@.take(payload.len() as int) =~= payload@);
    }
    r
}

/// The payload length a frame announces, none where it exceeds the limit.
pub fn frame_payload_len(len_bytes: &[u8; 4]) -> (r: Option<usize>)
    ensures
        le_value(len_bytes@) > MAX_FRAME_PAYLOAD ==> r is None,
        le_value(len_bytes@) <= MAX_FRAME_PAYLOAD ==> r == Some(le_value(len_bytes@) as usize),
{
    let v: u64 = len_bytes[0] as u64 + 256 * (len_bytes[1] as u64) + 65536 * (len_bytes[2] as u64)
        + 16777216 * (len_bytes[3] as u64);
    if v > MAX_FRAME_PAYLOAD as u64 {
        None
    } else {
        Some(v as usize)
    }
}

/// Reads one frame from the head of a buffer: a sender key that decodes, an
/// accepted length and that many payload bytes. Returns the message and the
/// number of bytes consumed, or none.
pub fn decode_frame(buf: &Vec<u8>) -> (r: Option<(Envelope, usize)>)
    ensures
        match r {
            Some((env, used)) => {
                &&& buf@.len() >= 36
                &&& env.from@ == buf@.subrange(0, 32)
                &&& ed25519_key_decodes(env.from@)
                &&& le_value(buf@.subrange(32, 36)) <= MAX_FRAME_PAYLOAD
                &&& used == 36 + le_value(buf@.subrange(32, 36))
                &&& used <= buf@.len()
                &&& env.payload@ == buf@.subrange(36, used as int)
            },
            None => {
                ||| buf@.len() < 36
                ||| !ed25519_key_decodes(buf@.subrange(0, 32))
                ||| le_value(buf@.subrange(32, 36)) > MAX_FRAME_PAYLOAD
                ||| buf@.len() < 36 + le_value(buf@.subrange(32, 36))
            },
        },
{
    if buf.len() < 36 {
        return None;
    }
    let mut from = [0u8; 32];
    let mut i: usize = 0;
    while i < 32
        invariant
            0 <= i <= 32,
            buf@.len() >= 36,
            forall|j: int| 0 <= j < i ==> from@[j] == buf@[j],
        decreases 32 - i,
    {
        from[i] = buf[i];
        i = i + 1;
    }
    assert(from@ =~= buf@.subrange(0, 32));
    if !ed25519_key_is_valid(&from) {
        return None;
    }
    let len_bytes = [buf[32], buf[33], buf[34], buf[35]];
    assert(len_bytes@ =~= buf@.subrange(32, 36));
    let len = match frame_payload_len(&len_bytes) {
        Some(n) => n,
        None => {
            return None;
        },
    };
    if buf.len() - 36 < len {
        return None;
    }
    let mut payload: Vec<u8> = Vec::new();
    let mut k: usize = 0;
    while k < len
        invariant
            0 <= k <= len,
            36 + len <= buf.len(),
            payload@ == buf@.subrange(36, 36 + k),
        decreases len - k,
    {
        payload.push(buf[36 + k]);
        proof {
            assert(buf@.subrange(36, 36 + k + 1) =~= buf@.subrange(36, 36 + k).push(buf@[36 + k]));
        }
        k = k + 1;
    }
    Some((Envelope { from, payload }, 36 + len))
}

/// A frame that we send is read back by a receiver as the same sender and
/// payload, consuming exactly the frame, when the key decodes and the
/// payload is within the limit.
pub proof fn lemma_frame_roundtrip(sender: Seq<u8>, payload: Seq<u8>)
    requires
        sender.len() == 32,
        payload.len() <= MAX_FRAME_PAYLOAD,
    ensures
        frame_bytes(sender, payload).len() == 36 + payload.len(),
        frame_bytes(sender, payload).subrange(0, 32) == sender,
        le_value(frame_bytes(sender, payload).subrange(32, 36)) == payload.len(),
        frame_bytes(sender, payload).subrange(36, 36 + payload.len() as int) == payload,
{
    let f = frame_bytes(sender, payload);
    let n = payload.len() as u32;
    assert(f.subrange(0, 32) =~= sender);
    assert(f.subrange(32, 36) =~= le_bytes(n));
    assert(f.subrange(36, 36 + payload.len() as int) =~= payload);
    assert(le_value(le_bytes(n)) == n as nat) by (nonlinear_arith)
        requires
            le_bytes(n) == seq![(n % 256) as u8, ((n / 256) % 256) as u8, ((n / 65536) % 256) as u8, (n / 16777216) as u8],
    {
    }
}

/// The maximum polynomial degree accepted when parsing messages of a
/// ceremony with `n` participants: the quorum `n - f`, with `f = (n - 1) / 3`
/// faults tolerated.
pub fn max_degree(n: u32) -> (r: u32)
    requires
        n >= 1,
    ensures
        r == n - (n - 1) / 3,
{
    let f = (n - 1) / 3;
    n - f
}

/// The address book of bootstrap peers: each key to its address, a later
/// entry for the same key replacing an earlier one.
pub open spec fn peer_map(peers: Seq<([u8; 32], String)>) -> Map<Seq<u8>, Seq<char>>
    decreases peers.len(),
{
    if peers.len() == 0 {
        Map::empty()
    } else {
        peer_map(peers.drop_last()).insert(peers.last().0@, peers.last().1@)
    }
}

/// An address book entry is keyed by the peer's key.
pub open spec fn addr_key() -> spec_fn(([u8; 32], String)) -> Seq<u8> {
    |e: ([u8; 32], String)| e.0@
}

/// The participants other than `me`, in order.
pub open spec fn others(participants: Seq<[u8; 32]>, me: Seq<u8>) -> Seq<[u8; 32]>
    decreases participants.len(),
{
    if participants.len() == 0 {
        Seq::empty()
    } else {
        let rest = others(participants.drop_last(), me);
        if participants.last()@ == me {
            rest
        } else {
            rest.push(participants.last())
        }
    }
}

/// Whom a DKG node sends to: its own key, the ceremony's participants, and
/// the addresses of its bootstrap peers.
#[derive(Debug, Clone)]
pub struct DkgPeers {
    my_key: [u8; 32],
    participants: Vec<[u8; 32]>,
    peer_addrs: Vec<([u8; 32], String)>,
}

impl DkgPeers {
    /// Each peer key occurs once in the address book.
    pub closed spec fn wf(&self) -> bool {
        keys_distinct(self.peer_addrs@, addr_key())
    }

    /// This node's public key.
    pub closed spec fn spec_my_key(&self) -> Seq<u8> {
        self.my_key@
    }

    /// The ceremony's participants.
    pub closed spec fn spec_participants(&self) -> Seq<[u8; 32]> {
        self.participants@
    }

    /// The address of each known peer.
    pub closed spec fn addresses(&self) -> Map<Seq<u8>, Seq<char>> {
        keyed_map(self.peer_addrs@, addr_key()).map_values(|e: ([u8; 32], String)| e.1@)
    }

    /// The peers of a ceremony: this node's key (from its identity), the
    /// participants, and the bootstrap peers' addresses.
    pub fn new(config: &DkgConfig) -> (p: Self)
        ensures
            p.wf(),
            p.spec_my_key() == ed25519_seed_public_key(config.identity_key@),
            p.spec_participants() == config.participants@,
            p.addresses() == peer_map(config.bootstrap_peers@),
    {
        let my_key = seed_public_key(&config.identity_key).unwrap();
        let peers = &config.bootstrap_peers;
        let mut book: Vec<([u8; 32], String)> = Vec::new();
        let mut i: usize = 0;
        while i < peers.len()
            invariant
                0 <= i <= peers.len(),
                peers == &config.bootstrap_peers,
                keys_distinct(book@, addr_key()),
                keyed_map(book@, addr_key()).map_values(|e: ([u8; 32], String)| e.1@) == peer_map(
                    peers@.take(i as int),
                ),
            decreases peers.len() - i,
        {
            let entry = (peers[i].0, peers[i].1.clone());
            let ghost b0 = book@;
            let mut j: usize = 0;
            while j < book.len()
                invariant
                    0 <= j <= book.len(),
                    book@ == b0,
                    forall|m: int| 0 <= m < j ==> b0[m].0@ != entry.0@,
                ensures
                    j < b0.len() ==> b0[j as int].0@ == entry.0@,
                    j >= b0.len() ==> forall|m: int| 0 <= m < b0.len() ==> b0[m].0@ != entry.0@,
                decreases book.len() - j,
            {
                if eq_bytes32(&book[j].0, &entry.0) {
                    break;
                }
                j = j + 1;
            }
            proof {
                let t = peers@.take(i + 1);
                assert(t.drop_last() =~= peers@.take(i as int));
                assert(t.last() == peers@[i as int]);
            }
            if j < book.len() {
                proof {
                    lemma_keyed_map_update(b0, addr_key(), j as int, entry);
                }
                book.set(j, entry);
                proof {
                    assert(keyed_map(book@, addr_key()).map_values(|e: ([u8; 32], String)| e.1@) =~= keyed_map(
                        b0,
                        addr_key(),
                    ).map_values(|e: ([u8; 32], String)| e.1@).insert(entry.0@, entry.1@));
                }
            } else {
                proof {
                    lemma_keyed_map_dom(b0, addr_key(), entry.0@);
                    lemma_keyed_map_push(b0, addr_key(), entry);
                }
                book.push(entry);
                proof {
                    assert(keyed_map(book@, addr_key()).map_values(|e: ([u8; 32], String)| e.1@) =~= keyed_map(
                        b0,
                        addr_key(),
                    ).map_values(|e: ([u8; 32], String)| e.1@).insert(entry.0@, entry.1@));
                }
            }
            i = i + 1;
        }
        proof {
            assert(peers@.take(peers.len() as int) =~= peers@);
        }
        let mut participants: Vec<[u8; 32]> = Vec::new();
        let mut k: usize = 0;
        while k < config.participants.len()
            invariant
                0 <= k <= config.participants.len(),
                participants@ == config.participants@.take(k as int),
            decreases config.participants.len() - k,
        {
            participants.push(config.participants[k]);
            proof {
                assert(config.participants@.take(k + 1) =~= config.participants@.take(k as int).push(
                    config.participants@[k as int],
                ));
            }
            k = k + 1;
        }
        assert(config.participants@.take(config.participants.len() as int) =~= config.participants@);
        DkgPeers { my_key, participants, peer_addrs: book }
    }

    /// The address of a peer; an unknown peer is a network error that
    /// names its key in hex.
    pub fn address_of(&self, to: &[u8; 32]) -> (r: Result<String, DkgError>)
        requires
            self.wf(),
        ensures
            match r {
                Ok(a) => self.addresses().contains_key(to@) && a@ == self.addresses()[to@],
                Err(DkgError::Network(m)) => !self.addresses().contains_key(to@) && m@ == "Unknown peer: "@
                    + hex_chars(to@),
                Err(_) => false,
            },
    {
        let mut j: usize = 0;
        while j < self.peer_addrs.len()
            invariant
                0 <= j <= self.peer_addrs.len(),
                self.wf(),
                forall|m: int| 0 <= m < j ==> self.peer_addrs@[m].0@ != to@,
            decreases self.peer_addrs.len() - j,
        {
            if eq_bytes32(&self.peer_addrs[j].0, to) {
                proof {
                    lemma_keyed_map_index(self.peer_addrs@, addr_key(), j as int);
                }
                return Ok(self.peer_addrs[j].1.clone());
            }
            j = j + 1;
        }
        proof {
            lemma_keyed_map_dom(self.peer_addrs@, addr_key(), to@);
        }
        let mut m = String::from_str("Unknown peer: ");
        let h = hex_encode(to.as_slice());
        push_str(&mut m, h.as_str());
        Err(DkgError::Network(m))
    }

    /// Frames a message from this node.
    pub fn frame(&self, payload: &Vec<u8>) -> (r: Vec<u8>)
        requires
            payload.len() <= u32::MAX,
        ensures
            r@ == frame_bytes(self.spec_my_key(), payload@),
    {
        encode_frame(&self.my_key, payload)
    }

    /// The peers a broadcast goes to: every participant but this node, in
    /// order.
    pub fn broadcast_targets(&self) -> (r: Vec<[u8; 32]>)
        ensures
            r@ == others(self.spec_participants(), self.spec_my_key()),
    {
        let mut r: Vec<[u8; 32]> = Vec::new();
        let mut i: usize = 0;
        while i < self.participants.len()
            invariant
                0 <= i <= self.participants.len(),
                r@ == others(self.participants@.take(i as int), self.my_key@),
            decreases self.participants.len() - i,
        {
            let p = self.participants[i];
            proof {
                let t = self.participants@.take(i + 1);
                assert(t.drop_last() =~= self.participants@.take(i as int));
                assert(t.last() == p);
            }
            if !eq_bytes32(&p, &self.my_key) {
                r.push(p);
            }
            i = i + 1;
        }
        proof {
            assert(self.participants@.take(self.participants.len() as int) =~= self.participants@);
        }
        r
    }

    /// The maximum polynomial degree accepted when parsing this ceremony's
    /// messages.
    pub fn max_degree(&self) -> (r: u32)
        requires
            1 <= self.spec_participants().len() <= u32::MAX,
        ensures
            r == self.spec_participants().len() - (self.spec_participants().len() - 1) / 3,
    {
        max_degree(self.participants.len() as u32)
    }
}

} // verus!
