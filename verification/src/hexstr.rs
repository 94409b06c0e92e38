//! Hex encoding of byte strings through the `hex` crate, with what it does
//! stated exactly, and the law that decoding an encoding gives the bytes
//! back.

use vstd::prelude::*;

verus! {

/// The lowercase hex digit of a value below 16.
pub open spec fn hex_digit(v: nat) -> char {
    if v < 10 {
        ((v + 48) as u32) as char
    } else {
        ((v + 87) as u32) as char
    }
}

/// The value of a hex digit of either case, if it is one.
pub open spec fn hex_value(c: char) -> Option<nat> {
    let x = c as u32;
    if 48 <= x <= 57 {
        Some((x - 48) as nat)
    } else if 97 <= x <= 102 {
        Some((x - 87) as nat)
    } else if 65 <= x <= 70 {
        Some((x - 55) as nat)
    } else {
        None
    }
}

/// The lowercase hex encoding of bytes: two digits per byte, high first.
pub open spec fn hex_chars(b: Seq<u8>) -> Seq<char>
    decreases b.len(),
{
    if b.len() == 0 {
        Seq::empty()
    } else {
        hex_chars(b.drop_last()) + seq![hex_digit(b.last() as nat / 16), hex_digit(b.last() as nat % 16)]
    }
}

/// Whether a string is a hex encoding: an even number of hex digits.
pub open spec fn hex_decodes(s: Seq<char>) -> bool {
    &&& s.len() % 2 == 0
    &&& forall|i: int| 0 <= i < s.len() ==> (#[trigger] hex_value(s[i])) is Some
}

/// The bytes a hex encoding stands for.
pub open spec fn hex_bytes(s: Seq<char>) -> Seq<u8> {
    Seq::new(
        s.len() / 2,
        |i: int| (hex_value(s[2 * i]).unwrap() * 16 + hex_value(s[2 * i + 1]).unwrap()) as u8,
    )
}

/// `hex::encode`. Claimed: the lowercase encoding, two digits per byte.
#[verifier::external_body]
pub(crate) fn hex_encode(data: &[u8]) -> (s: String)
    ensures
        s@ == hex_chars(data@),
{
    hex::encode(data)
}

/// `hex::decode`. Claimed: it succeeds exactly on an even number of hex
/// digits of either case, with the bytes they stand for; the error text is
/// the crate's message.
#[verifier::external_body]
pub(crate) fn hex_decode(s: &str) -> (r: Result<Vec<u8>, String>)
    ensures
        match r {
            Ok(v) => hex_decodes(s@) && v@ == hex_bytes(s@),
            Err(_) => !hex_decodes(s@),
        },
{
    hex::decode(s).map_err(|e| e.to_string())
}

proof fn lemma_hex_chars_index(b: Seq<u8>)
    ensures
        hex_chars(b).len() == 2 * b.len(),
        forall|i: int|
            0 <= i < b.len() ==> hex_chars(b)[2 * i] == hex_digit(#[trigger] b[i] as nat / 16)
                && hex_chars(b)[2 * i + 1] == hex_digit(b[i] as nat % 16),
    decreases b.len(),
{
    if b.len() > 0 {
        let p = b.drop_last();
        lemma_hex_chars_index(p);
        assert forall|i: int| 0 <= i < b.len() implies hex_chars(b)[2 * i] == hex_digit(
            #[trigger] b[i] as nat / 16,
        ) && hex_chars(b)[2 * i + 1] == hex_digit(b[i] as nat % 16) by {
            if i < p.len() {
                assert(p[i] == b[i]);
            }
        }
    }
}

proof fn lemma_hex_digit_value(v: nat)
    requires
        v < 16,
    ensures
        hex_value(hex_digit(v)) == Some(v),
{
    if v < 10 {
        assert((((v + 48) as u32) as char) as u32 == v + 48);
    } else {
        assert((((v + 87) as u32) as char) as u32 == v + 87);
    }
}

/// Decoding the hex encoding of bytes succeeds and gives the bytes back.
pub proof fn lemma_hex_roundtrip(b: Seq<u8>)
    ensures
        hex_decodes(hex_chars(b)),
        hex_bytes(hex_chars(b)) == b,
{
    let s = hex_chars(b);
    lemma_hex_chars_index(b);
    assert forall|i: int| 0 <= i < s.len() implies (#[trigger] hex_value(s[i])) is Some by {
        let k = i / 2;
        assert(0 <= k < b.len());
        lemma_hex_digit_value(b[k] as nat / 16);
        lemma_hex_digit_value(b[k] as nat % 16);
        if i % 2 == 0 {
            assert(i == 2 * k);
        } else {
            assert(i == 2 * k + 1);
        }
    }
    assert forall|i: int| 0 <= i < b.len() implies #[trigger] hex_bytes(s)[i] == b[i] by {
        lemma_hex_digit_value(b[i] as nat / 16);
        lemma_hex_digit_value(b[i] as nat % 16);
    }
    assert(hex_bytes(s) =~= b);
}

} // verus!
