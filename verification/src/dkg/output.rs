//! The output of a DKG ceremony and the two records it is persisted as
//! (the public output and the secret share), with byte strings in hex.

use crate::dkg::error::DkgError;
use crate::hexstr::{hex_bytes, hex_chars, hex_decode, hex_decodes, hex_encode, lemma_hex_roundtrip};
use vstd::prelude::*;

verus! {

/// Output of a successful DKG ceremony containing the group key, shares,
/// and participant info.
#[derive(Debug, Clone)]
pub struct DkgOutput {
    /// The aggregated group public key derived from all participants'
    /// contributions.
    pub group_public_key: Vec<u8>,
    /// Coefficients of the public polynomial used for share verification.
    pub public_polynomial: Vec<u8>,
    /// Minimum number of participants required to reconstruct the secret.
    pub threshold: u32,
    /// Total number of participants in the DKG ceremony.
    pub participants: usize,
    /// This participant's index in the DKG ceremony (1-indexed).
    pub share_index: u32,
    /// This participant's secret share of the distributed key.
    pub share_secret: Vec<u8>,
    /// Public keys of all participants in the DKG ceremony.
    pub participant_keys: Vec<Vec<u8>>,
}

/// The public part of an output as persisted, byte strings in hex.
#[derive(Debug, Clone)]
pub struct OutputRecord {
    pub group_public_key: String,
    pub public_polynomial: String,
    pub threshold: u32,
    pub participants: usize,
    pub participant_keys: Vec<String>,
}

/// The secret share of an output as persisted, the secret in hex.
#[derive(Debug, Clone)]
pub struct ShareRecord {
    pub index: u32,
    pub secret: String,
}

/// Mathematical model of a [`DkgOutput`].
pub struct DkgOutputView {
    pub group_public_key: Seq<u8>,
    pub public_polynomial: Seq<u8>,
    pub threshold: u32,
    pub participants: usize,
    pub share_index: u32,
    pub share_secret: Seq<u8>,
    pub participant_keys: Seq<Seq<u8>>,
}

impl View for DkgOutput {
    type V = DkgOutputView;

    open spec fn view(&self) -> DkgOutputView {
        DkgOutputView {
            group_public_key: self.group_public_key@,
            public_polynomial: self.public_polynomial@,
            threshold: self.threshold,
            participants: self.participants,
            share_index: self.share_index,
            share_secret: self.share_secret@,
            participant_keys: self.participant_keys@.map_values(|k: Vec<u8>| k@),
        }
    }
}

/// Mathematical model of the two records.
pub struct RecordsView {
    pub group_public_key: Seq<char>,
    pub public_polynomial: Seq<char>,
    pub threshold: u32,
    pub participants: usize,
    pub participant_keys: Seq<Seq<char>>,
    pub index: u32,
    pub secret: Seq<char>,
}

/// The model of a pair of records.
pub open spec fn records_view(o: OutputRecord, s: ShareRecord) -> RecordsView {
    RecordsView {
        group_public_key: o.group_public_key@,
        public_polynomial: o.public_polynomial@,
        threshold: o.threshold,
        participants: o.participants,
        participant_keys: o.participant_keys@.map_values(|k: String| k@),
        index: s.index,
        secret: s.secret@,
    }
}

/// The records an output is persisted as.
pub open spec fn records_of(o: DkgOutputView) -> RecordsView {
    RecordsView {
        group_public_key: hex_chars(o.group_public_key),
        public_polynomial: hex_chars(o.public_polynomial),
        threshold: o.threshold,
        participants: o.participants,
        participant_keys: o.participant_keys.map_values(|k: Seq<u8>| hex_chars(k)),
        index: o.share_index,
        secret: hex_chars(o.share_secret),
    }
}

/// Whether every byte string of the records is hex.
pub open spec fn records_decode(r: RecordsView) -> bool {
    &&& forall|i: int| 0 <= i < r.participant_keys.len() ==> hex_decodes(#[trigger] r.participant_keys[i])
    &&& hex_decodes(r.group_public_key)
    &&& hex_decodes(r.public_polynomial)
    &&& hex_decodes(r.secret)
}

/// The output that records stand for, if all of their hex decodes.
pub open spec fn output_of_records(r: RecordsView) -> Option<DkgOutputView> {
    if records_decode(r) {
        Some(
            DkgOutputView {
                group_public_key: hex_bytes(r.group_public_key),
                public_polynomial: hex_bytes(r.public_polynomial),
                threshold: r.threshold,
                participants: r.participants,
                share_index: r.index,
                share_secret: hex_bytes(r.secret),
                participant_keys: r.participant_keys.map_values(|k: Seq<char>| hex_bytes(k)),
            },
        )
    } else {
        None
    }
}

impl DkgOutput {
    /// The public record of this output.
    pub fn output_record(&self) -> (r: OutputRecord)
        ensures
            r.participant_keys@.map_values(|k: String| k@) == records_of(self@).participant_keys,
            r.group_public_key@ == hex_chars(self.group_public_key@),
            r.public_polynomial@ == hex_chars(self.public_polynomial@),
            r.threshold == self.threshold,
            r.participants == self.participants,
    {
        let mut keys: Vec<String> = Vec::new();
        let mut i: usize = 0;
        while i < self.participant_keys.len()
            invariant
                0 <= i <= self.participant_keys.len(),
                keys@.len() == i,
                forall|j: int| 0 <= j < i ==> (#[trigger] keys@[j])@ == hex_chars(self.participant_keys@[j]@),
            decreases self.participant_keys.len() - i,
        {
            let h = hex_encode(self.participant_keys[i].as_slice());
            keys.push(h);
            i = i + 1;
        }
        proof {
            assert(keys@.map_values(|k: String| k@) =~= self@.participant_keys.map_values(
                |k: Seq<u8>| hex_chars(k),
            ));
        }
        OutputRecord {
            group_public_key: hex_encode(self.group_public_key.as_slice()),
            public_polynomial: hex_encode(self.public_polynomial.as_slice()),
            threshold: self.threshold,
            participants: self.participants,
            participant_keys: keys,
        }
    }

    /// The share record of this output.
    pub fn share_record(&self) -> (r: ShareRecord)
        ensures
            r.index == self.share_index,
            r.secret@ == hex_chars(self.share_secret@),
    {
        ShareRecord { index: self.share_index, secret: hex_encode(self.share_secret.as_slice()) }
    }

    /// The output that two records stand for; a byte string that is not hex
    /// is a serialization error (participant keys are decoded first, then
    /// the group key, the polynomial and the secret).
    pub fn from_records(output: &OutputRecord, share: &ShareRecord) -> (r: Result<DkgOutput, DkgError>)
        ensures
            match r {
                Ok(o) => output_of_records(records_view(*output, *share)) == Some(o@),
                Err(e) => output_of_records(records_view(*output, *share)) is None && e is Serialization,
            },
    {
        let ghost rv = records_view(*output, *share);
        let mut keys: Vec<Vec<u8>> = Vec::new();
        let mut i: usize = 0;
        while i < output.participant_keys.len()
            invariant
                0 <= i <= output.participant_keys.len(),
                rv == records_view(*output, *share),
                forall|j: int| 0 <= j < i ==> hex_decodes(#[trigger] output.participant_keys@[j]@),
                keys@.len() == i,
                forall|j: int| 0 <= j < i ==> (#[trigger] keys@[j])@ == hex_bytes(output.participant_keys@[j]@),
            decreases output.participant_keys.len() - i,
        {
            match hex_decode(output.participant_keys[i].as_str()) {
                Ok(b) => {
                    keys.push(b);
                },
                Err(e) => {
                    proof {
                        assert(!hex_decodes(rv.participant_keys[i as int]));
                    }
                    return Err(DkgError::Serialization(e));
                },
            }
            i = i + 1;
        }
        let group_public_key = match hex_decode(output.group_public_key.as_str()) {
            Ok(b) => b,
            Err(e) => {
                return Err(DkgError::Serialization(e));
            },
        };
        let public_polynomial = match hex_decode(output.public_polynomial.as_str()) {
            Ok(b) => b,
            Err(e) => {
                return Err(DkgError::Serialization(e));
            },
        };
        let share_secret = match hex_decode(share.secret.as_str()) {
            Ok(b) => b,
            Err(e) => {
                return Err(DkgError::Serialization(e));
            },
        };
        let o = DkgOutput {
            group_public_key,
            public_polynomial,
            threshold: output.threshold,
            participants: output.participants,
            share_index: share.index,
            share_secret,
            participant_keys: keys,
        };
        proof {
            assert forall|j: int| 0 <= j < rv.participant_keys.len() implies hex_decodes(
                #[trigger] rv.participant_keys[j],
            ) by {
                assert(hex_decodes(output.participant_keys@[j]@));
            }
            assert(o@.participant_keys =~= rv.participant_keys.map_values(|k: Seq<char>| hex_bytes(k)));
        }
        Ok(o)
    }
}

/// An output persisted as its two records is read back as the same output.
pub proof fn lemma_output_roundtrip(o: DkgOutputView)
    ensures
        output_of_records(records_of(o)) == Some(o),
{
    let r = records_of(o);
    lemma_hex_roundtrip(o.group_public_key);
    lemma_hex_roundtrip(o.public_polynomial);
    lemma_hex_roundtrip(o.share_secret);
    assert forall|i: int| 0 <= i < r.participant_keys.len() implies hex_decodes(
        #[trigger] r.participant_keys[i],
    ) by {
        lemma_hex_roundtrip(o.participant_keys[i]);
    }
    let back = r.participant_keys.map_values(|k: Seq<char>| hex_bytes(k));
    assert forall|i: int| 0 <= i < o.participant_keys.len() implies #[trigger] back[i] == o.participant_keys[i] by {
        lemma_hex_roundtrip(o.participant_keys[i]);
    }
    assert(back =~= o.participant_keys);
}

} // verus!
