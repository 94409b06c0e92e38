//! Identifiers of blocks and transactions and the state commitment: 32
//! bytes each, encoded as the raw bytes.

use vstd::prelude::*;

verus! {

/// Block identifier (32 bytes).
#[derive(Clone, Copy, Debug, PartialEq, Eq, Hash)]
pub struct BlockId(pub [u8; 32]);

/// Transaction identifier (32 bytes).
#[derive(Clone, Copy, Debug, PartialEq, Eq, Hash)]
pub struct TxId(pub [u8; 32]);

/// State commitment (32 bytes).
#[derive(Clone, Copy, Debug, PartialEq, Eq, Hash)]
pub struct StateRoot(pub [u8; 32]);

/// Why an identifier could not be read.
#[derive(Clone, Copy, Debug, PartialEq, Eq)]
pub enum IdentError {
    /// Fewer than 32 bytes remain.
    EndOfBuffer,
}

/// Identifier encoding helpers.
#[derive(Debug)]
pub struct Idents;

impl Idents {
    /// The encoded size of an identifier.
    pub const SIZE: usize = 32;

    /// Encode 32 bytes into the buffer as raw bytes.
    pub fn write_b256(value: &[u8; 32], buf: &mut Vec<u8>)
        ensures
            final(buf)@ == old(buf)@ + value@,
    {
        let ghost b0 = buf@;
        let mut i: usize = 0;
        while i < 32
            invariant
                0 <= i <= 32,
                buf@ == b0 + value@.take(i as int),
            decreases 32 - i,
        {
            buf.push(value[i]);
            proof {
                assert(b0 + value@.take(i + 1) =~= (b0 + value@.take(i as int)).push(value@[i as int]));
            }
            i = i + 1;
        }
        proof {
            assert(value@.take(32) =~= value@);
        }
    }

    /// Decode 32 bytes from the buffer at `*pos`, advancing it; an error
    /// where fewer than 32 bytes remain.
    pub fn read_b256(buf: &[u8], pos: &mut usize) -> (r: Result<[u8; 32], IdentError>)
        requires
            *old(pos) <= buf@.len(),
        ensures
            buf@.len() - *old(pos) < 32 ==> r == Err::<[u8; 32], IdentError>(IdentError::EndOfBuffer)
                && *final(pos) == *old(pos),
            buf@.len() - *old(pos) >= 32 ==> (r matches Ok(v) && v@ == buf@.subrange(
                *old(pos) as int,
                *old(pos) + 32,
            )) && *final(pos) == *old(pos) + 32,
    {
        if buf.len() - *pos < 32 {
            return Err(IdentError::EndOfBuffer);
        }
        let start = *pos;
        let mut out = [0u8; 32];
        let mut i: usize = 0;
        while i < 32
            invariant
                0 <= i <= 32,
                start + 32 <= buf.len(),
                forall|j: int| 0 <= j < i ==> out@[j] == buf@[start + j],
            decreases 32 - i,
        {
            out[i] = buf[start + i];
            i = i + 1;
        }
        assert(out@ =~= buf@.subrange(start as int, start + 32));
        *pos = start + 32;
        Ok(out)
    }
}

/// Reading back what was written gives the same 32 bytes and consumes
/// exactly them.
pub proof fn lemma_b256_roundtrip(prefix: Seq<u8>, value: Seq<u8>, rest: Seq<u8>)
    requires
        value.len() == 32,
    ensures
        (prefix + value + rest).subrange(prefix.len() as int, prefix.len() + 32int) == value,
        (prefix + value + rest).len() - prefix.len() >= 32,
{
    assert((prefix + value + rest).subrange(prefix.len() as int, prefix.len() + 32int) =~= value);
}

} // verus!
