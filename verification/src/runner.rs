//! A validator's threshold signing material, read from its DKG output: the
//! participants (each key once, in ascending order, as an ordered set holds
//! them), the number of participants the public polynomial is read for, and
//! the polynomial and share, each checked to decode, and the share checked
//! to carry the public key the polynomial gives at its index.

use crate::bytes::{insert_key_ascending, key_set, keys_ascending};
use crate::dkg::network::{ed25519_key_decodes, ed25519_key_is_valid};
use crate::dkg::output::DkgOutput;
use commonware_codec::Read;
use commonware_cryptography::bls12381::primitives::group::Share;
use commonware_cryptography::bls12381::primitives::sharing::{ModeVersion, Sharing};
use commonware_cryptography::bls12381::primitives::variant::MinSig;
use vstd::prelude::*;

verus! {

/// Whether bytes decode as a BLS12-381 public polynomial (minimal
/// signatures) for at most this many participants, in mode version 0.
pub uninterp spec fn minsig_sharing_decodes(bytes: Seq<u8>, max_participants: u32) -> bool;

/// Whether bytes decode as a BLS12-381 key share.
pub uninterp spec fn share_decodes(bytes: Seq<u8>) -> bool;

/// `Sharing::<MinSig>::read_cfg` with at most `max_participants`
/// participants and mode version 0. Claimed: success is the named predicate
/// of the bytes and the bound.
#[verifier::external_body]
fn sharing_reads(bytes: &[u8], max_participants: u32) -> (r: bool)
    requires
        max_participants > 0,
    ensures
        r == minsig_sharing_decodes(bytes@, max_participants),
{
    let cfg = (std::num::NonZeroU32::new(max_participants).unwrap(), ModeVersion::v0());
    Sharing::<MinSig>::read_cfg(&mut commonware_codec::Copying(bytes), &cfg).is_ok()
}

/// `Share::read_cfg`. Claimed: success is the named predicate of the bytes.
#[verifier::external_body]
fn share_reads(bytes: &[u8]) -> (r: bool)
    ensures
        r == share_decodes(bytes@),
{
    Share::read_cfg(&mut commonware_codec::Copying(bytes), &()).is_ok()
}

/// Whether the share that `share` decodes to carries the public key that
/// the polynomial `polynomial` (read for at most `max_participants`
/// participants) gives at the share's index; none where either does not
/// decode or the index lies outside the polynomial.
pub uninterp spec fn minsig_share_key_matches(polynomial: Seq<u8>, max_participants: u32, share: Seq<u8>) -> Option<bool>;

/// `Sharing::partial_public` at the share's index, compared with
/// `Share::public` (minimal signatures): the check by which
/// commonware-cryptography's threshold signer refuses a share whose public
/// key does not match the polynomial. Claimed: the result is the named
/// function of the bytes and the bound.
#[verifier::external_body]
fn share_key_matches(polynomial: &[u8], max_participants: u32, share: &[u8]) -> (r: Option<bool>)
    requires
        max_participants > 0,
    ensures
        r == minsig_share_key_matches(polynomial@, max_participants, share@),
{
    let cfg = (std::num::NonZeroU32::new(max_participants).unwrap(), ModeVersion::v0());
    let sharing = Sharing::<MinSig>::read_cfg(&mut commonware_codec::Copying(polynomial), &cfg).ok()?;
    let share = Share::read_cfg(&mut commonware_codec::Copying(share), &()).ok()?;
    let partial = sharing.partial_public(share.index).ok()?;
    Some(partial == share.public::<MinSig>())
}

/// Why the signing material could not be read.
#[derive(Debug, Clone, PartialEq, Eq)]
pub enum SchemeError {
    /// A participant key does not decode as an ed25519 key.
    ParticipantKey(usize),
    /// There are no participants.
    NoParticipants,
    /// The public polynomial does not decode.
    PublicPolynomial,
    /// The share does not decode.
    Share,
    /// The share's public key is not the one the polynomial gives at its
    /// index.
    ShareKeyMismatch,
}

/// The text a material error is reported with.
pub open spec fn scheme_error_text(e: SchemeError) -> Seq<char> {
    match e {
        SchemeError::ParticipantKey(_) => "failed to decode participant key"@,
        SchemeError::NoParticipants => "participants cannot be empty"@,
        SchemeError::PublicPolynomial => "failed to decode public polynomial"@,
        SchemeError::Share => "failed to decode share"@,
        SchemeError::ShareKeyMismatch => "failed to create signer: share public key mismatch"@,
    }
}

impl SchemeError {
    /// The text this error is reported with.
    pub fn message(&self) -> (s: String)
        ensures
            s@ == scheme_error_text(*self),
    {
        match self {
            SchemeError::ParticipantKey(_) => String::from_str("failed to decode participant key"),
            SchemeError::NoParticipants => String::from_str("participants cannot be empty"),
            SchemeError::PublicPolynomial => String::from_str("failed to decode public polynomial"),
            SchemeError::Share => String::from_str("failed to decode share"),
            SchemeError::ShareKeyMismatch => String::from_str("failed to create signer: share public key mismatch"),
        }
    }
}

/// Whether a participant key reads: 32 bytes at its front that decode as
/// an ed25519 key (reading a key takes its length from the front).
pub open spec fn participant_key_reads(k: Seq<u8>) -> bool {
    k.len() >= 32 && ed25519_key_decodes(k.take(32))
}

/// The keys that the participants' keys read as.
pub open spec fn read_participant_keys(ks: Seq<Vec<u8>>) -> Set<Seq<u8>> {
    Set::new(|x: Seq<u8>| exists|i: int| 0 <= i < ks.len() && (#[trigger] ks[i])@.take(32) == x)
}

/// The signing material of a validator.
#[derive(Debug, Clone)]
pub struct ThresholdMaterial {
    /// The participants' keys, each once, in ascending order.
    pub participants: Vec<[u8; 32]>,
    /// The number of participants the polynomial was read for.
    pub max_participants: u32,
    /// The encoded public polynomial.
    pub public_polynomial: Vec<u8>,
    /// The encoded share.
    pub share_secret: Vec<u8>,
}

/// Reads a validator's threshold signing material from its DKG output: each
/// participant key in turn (the first that does not read is the error), a
/// nonempty participant list, then the public polynomial for as many
/// participants as were listed, then the share, then that the share's
/// public key is the one the polynomial gives at its index.
pub fn load_threshold_material(output: &DkgOutput) -> (r: Result<ThresholdMaterial, SchemeError>)
    requires
        output.participant_keys.len() <= u32::MAX,
    ensures
        match r {
            Ok(m) => {
                &&& forall|i: int|
                    0 <= i < output.participant_keys.len() ==> participant_key_reads(
                        #[trigger] output.participant_keys[i]@,
                    )
                &&& output.participant_keys.len() > 0
                &&& m.max_participants == output.participant_keys.len()
                &&& keys_ascending(m.participants@)
                &&& key_set(m.participants@) == read_participant_keys(output.participant_keys@)
                &&& minsig_sharing_decodes(output.public_polynomial@, m.max_participants)
                &&& share_decodes(output.share_secret@)
                &&& minsig_share_key_matches(output.public_polynomial@, m.max_participants, output.share_secret@)
                    == Some(true)
                &&& m.public_polynomial@ == output.public_polynomial@
                &&& m.share_secret@ == output.share_secret@
            },
            Err(SchemeError::ParticipantKey(i)) => {
                &&& i < output.participant_keys.len()
                &&& !participant_key_reads(output.participant_keys[i as int]@)
                &&& forall|j: int| 0 <= j < i ==> participant_key_reads(#[trigger] output.participant_keys[j]@)
            },
            Err(SchemeError::NoParticipants) => output.participant_keys.len() == 0,
            Err(SchemeError::PublicPolynomial) => {
                &&& output.participant_keys.len() > 0
                &&& forall|i: int|
                    0 <= i < output.participant_keys.len() ==> participant_key_reads(
                        #[trigger] output.participant_keys[i]@,
                    )
                &&& !minsig_sharing_decodes(output.public_polynomial@, output.participant_keys.len() as u32)
            },
            Err(SchemeError::Share) => {
                &&& output.participant_keys.len() > 0
                &&& forall|i: int|
                    0 <= i < output.participant_keys.len() ==> participant_key_reads(
                        #[trigger] output.participant_keys[i]@,
                    )
                &&& minsig_sharing_decodes(output.public_polynomial@, output.participant_keys.len() as u32)
                &&& !share_decodes(output.share_secret@)
            },
            Err(SchemeError::ShareKeyMismatch) => {
                &&& output.participant_keys.len() > 0
                &&& forall|i: int|
                    0 <= i < output.participant_keys.len() ==> participant_key_reads(
                        #[trigger] output.participant_keys[i]@,
                    )
                &&& minsig_sharing_decodes(output.public_polynomial@, output.participant_keys.len() as u32)
                &&& share_decodes(output.share_secret@)
                &&& minsig_share_key_matches(
                    output.public_polynomial@,
                    output.participant_keys.len() as u32,
                    output.share_secret@,
                ) != Some(true)
            },
        },
{
    let ks = &output.participant_keys;
    let mut participants: Vec<[u8; 32]> = Vec::new();
    let mut i: usize = 0;
    while i < ks.len()
        invariant
            0 <= i <= ks.len(),
            ks == &output.participant_keys,
            keys_ascending(participants@),
            key_set(participants@) == read_participant_keys(ks@.take(i as int)),
            forall|j: int| 0 <= j < i ==> participant_key_reads(#[trigger] ks[j]@),
        decreases ks.len() - i,
    {
        let k = &ks[i];
        if k.len() < 32 {
            return Err(SchemeError::ParticipantKey(i));
        }
        let mut key = [0u8; 32];
        let mut b: usize = 0;
        while b < 32
            invariant
                0 <= b <= 32,
                k@.len() >= 32,
                forall|m: int| 0 <= m < b ==> key@[m] == k@[m],
            decreases 32 - b,
        {
            key[b] = k[b];
            b = b + 1;
        }
        assert(key@ =~= k@.take(32));
        if !ed25519_key_is_valid(&key) {
            return Err(SchemeError::ParticipantKey(i));
        }
        let ghost before = ks@.take(i as int);
        insert_key_ascending(&mut participants, key);
        proof {
            let after = ks@.take(i + 1);
            assert forall|x: Seq<u8>|
                read_participant_keys(after).contains(x) <==> read_participant_keys(before).insert(
                    key@,
                ).contains(x) by {
                if read_participant_keys(after).contains(x) {
                    let j = choose|j: int| 0 <= j < after.len() && (#[trigger] after[j])@.take(32) == x;
                    if j < i {
                        assert(before[j] == after[j]);
                    }
                }
                if read_participant_keys(before).contains(x) {
                    let j = choose|j: int| 0 <= j < before.len() && (#[trigger] before[j])@.take(32) == x;
                    assert(after[j] == before[j]);
                }
                if x == key@ {
                    assert(after[i as int]@.take(32) == key@);
                }
            }
            assert(read_participant_keys(after) =~= read_participant_keys(before).insert(key@));
        }
        i = i + 1;
    }
    proof {
        assert(ks@.take(ks.len() as int) =~= ks@);
    }
    if ks.len() == 0 {
        return Err(SchemeError::NoParticipants);
    }
    let n = ks.len() as u32;
    if !sharing_reads(output.public_polynomial.as_slice(), n) {
        return Err(SchemeError::PublicPolynomial);
    }
    if !share_reads(output.share_secret.as_slice()) {
        return Err(SchemeError::Share);
    }
    match share_key_matches(output.public_polynomial.as_slice(), n, output.share_secret.as_slice()) {
        Some(true) => {},
        _ => {
            return Err(SchemeError::ShareKeyMismatch);
        },
    }
    Ok(
        ThresholdMaterial {
            participants,
            max_participants: n,
            public_polynomial: output.public_polynomial.clone(),
            share_secret: output.share_secret.clone(),
        },
    )
}

} // verus!
