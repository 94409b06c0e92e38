//! Fixed-size byte strings (hashes and addresses): equality and the
//! lexicographic order in which Rust compares byte arrays.

use vstd::prelude::*;

verus! {

/// `a` comes strictly before `b` in lexicographic byte order.
pub open spec fn lex_lt(a: Seq<u8>, b: Seq<u8>) -> bool
    decreases a.len(),
{
    if a.len() == 0 || b.len() == 0 {
        a.len() == 0 && b.len() > 0
    } else if a[0] < b[0] {
        true
    } else if a[0] > b[0] {
        false
    } else {
        lex_lt(a.drop_first(), b.drop_first())
    }
}

/// Lexicographic order is irreflexive.
pub proof fn lemma_lex_irreflexive(a: Seq<u8>)
    ensures
        !lex_lt(a, a),
    decreases a.len(),
{
    if a.len() > 0 {
        lemma_lex_irreflexive(a.drop_first());
    }
}

/// Lexicographic order is transitive.
pub proof fn lemma_lex_transitive(a: Seq<u8>, b: Seq<u8>, c: Seq<u8>)
    requires
        lex_lt(a, b),
        lex_lt(b, c),
    ensures
        lex_lt(a, c),
    decreases a.len(),
{
    if a.len() > 0 && b.len() > 0 && c.len() > 0 {
        if a[0] == b[0] && b[0] == c[0] {
            lemma_lex_transitive(a.drop_first(), b.drop_first(), c.drop_first());
        }
    }
}

/// Lexicographic order is total on byte strings of equal length.
pub proof fn lemma_lex_total(a: Seq<u8>, b: Seq<u8>)
    requires
        a.len() == b.len(),
    ensures
        a == b || lex_lt(a, b) || lex_lt(b, a),
    decreases a.len(),
{
    if a.len() > 0 {
        lemma_lex_total(a.drop_first(), b.drop_first());
        if a[0] == b[0] && a.drop_first() == b.drop_first() {
            assert(a =~= seq![a[0]] + a.drop_first());
            assert(b =~= seq![b[0]] + b.drop_first());
        }
    } else {
        assert(a =~= b);
    }
}

/// Lexicographic order is asymmetric.
pub proof fn lemma_lex_asymmetric(a: Seq<u8>, b: Seq<u8>)
    requires
        lex_lt(a, b),
    ensures
        !lex_lt(b, a),
{
    if lex_lt(b, a) {
        lemma_lex_transitive(a, b, a);
        lemma_lex_irreflexive(a);
    }
}

/// Compares two 32-byte strings in lexicographic order: `-1`, `0` or `1`.
pub fn compare_bytes32(a: &[u8; 32], b: &[u8; 32]) -> (r: i8)
    ensures
        r == 0 <==> a@ == b@,
        r < 0 <==> lex_lt(a@, b@),
        r > 0 <==> lex_lt(b@, a@),
        -1 <= r <= 1,
{
    let mut i: usize = 0;
    assert(a@.skip(0) =~= a@);
    assert(b@.skip(0) =~= b@);
    while i < 32
        invariant
            0 <= i <= 32,
            a@.len() == 32,
            b@.len() == 32,
            a@.subrange(0, i as int) == b@.subrange(0, i as int),
            lex_lt(a@, b@) == lex_lt(a@.skip(i as int), b@.skip(i as int)),
            lex_lt(b@, a@) == lex_lt(b@.skip(i as int), a@.skip(i as int)),
        decreases 32 - i,
    {
        let x = a[i];
        let y = b[i];
        assert(a@.skip(i as int)[0] == x);
        assert(b@.skip(i as int)[0] == y);
        if x < y {
            proof { lemma_lex_asymmetric(a@, b@); }
            assert(a@ != b@);
            return -1;
        }
        if x > y {
            proof { lemma_lex_asymmetric(b@, a@); }
            assert(a@ != b@);
            return 1;
        }
        assert(a@.skip(i as int).drop_first() =~= a@.skip(i + 1));
        assert(b@.skip(i as int).drop_first() =~= b@.skip(i + 1));
        assert(a@.subrange(0, i + 1) =~= a@.subrange(0, i as int).push(x));
        assert(b@.subrange(0, i + 1) =~= b@.subrange(0, i as int).push(y));
        i = i + 1;
    }
    assert(a@ =~= a@.subrange(0, 32));
    assert(b@ =~= b@.subrange(0, 32));
    proof { lemma_lex_irreflexive(a@); }
    0
}

/// Two 32-byte arrays with the same bytes are equal.
pub proof fn lemma_bytes32_eq(a: [u8; 32], b: [u8; 32])
    requires
        a@ == b@,
    ensures
        a == b,
{
    assert(forall|i: int| 0 <= i < 32 ==> a@[i] == b@[i]);
    assert(a =~= b);
}

/// Equality of two 32-byte strings.
pub fn eq_bytes32(a: &[u8; 32], b: &[u8; 32]) -> (r: bool)
    ensures
        r == (a@ == b@),
{
    compare_bytes32(a, b) == 0
}

/// Equality of two 20-byte strings.
pub fn eq_bytes20(a: &[u8; 20], b: &[u8; 20]) -> (r: bool)
    ensures
        r == (a@ == b@),
{
    let mut i: usize = 0;
    while i < 20
        invariant
            0 <= i <= 20,
            a@.len() == 20,
            b@.len() == 20,
            a@.subrange(0, i as int) == b@.subrange(0, i as int),
        decreases 20 - i,
    {
        if a[i] != b[i] {
            assert(a@[i as int] != b@[i as int]);
            return false;
        }
        assert(a@.subrange(0, i + 1) =~= a@.subrange(0, i as int).push(a@[i as int]));
        assert(b@.subrange(0, i + 1) =~= b@.subrange(0, i as int).push(b@[i as int]));
        i = i + 1;
    }
    assert(a@ =~= a@.subrange(0, 20));
    assert(b@ =~= b@.subrange(0, 20));
    true
}

/// Keys strictly ascending in lexicographic order: each key once.
pub open spec fn keys_ascending(s: Seq<[u8; 32]>) -> bool {
    forall|i: int, j: int| 0 <= i < j < s.len() ==> lex_lt(#[trigger] s[i]@, #[trigger] s[j]@)
}

/// The byte strings of a sequence of keys, as a set.
pub open spec fn key_set(s: Seq<[u8; 32]>) -> Set<Seq<u8>> {
    Set::new(|k: Seq<u8>| exists|i: int| 0 <= i < s.len() && (#[trigger] s[i])@ == k)
}

/// Adds a key to keys held in ascending order, unless it is there already;
/// the keys stay in ascending order, as an ordered set keeps them.
pub fn insert_key_ascending(keys: &mut Vec<[u8; 32]>, k: [u8; 32])
    requires
        keys_ascending(old(keys)@),
    ensures
        keys_ascending(final(keys)@),
        key_set(final(keys)@) == key_set(old(keys)@).insert(k@),
{
    let ghost s0 = keys@;
    let mut i: usize = 0;
    while i < keys.len()
        invariant
            0 <= i <= keys.len(),
            keys@ == s0,
            keys_ascending(s0),
            forall|j: int| 0 <= j < i ==> lex_lt((#[trigger] s0[j])@, k@),
        ensures
            i < s0.len() ==> (s0[i as int]@ == k@ || lex_lt(k@, s0[i as int]@)),
        decreases keys.len() - i,
    {
        let c = compare_bytes32(&keys[i], &k);
        if c >= 0 {
            break;
        }
        i = i + 1;
    }
    if i < keys.len() && eq_bytes32(&keys[i], &k) {
        assert(key_set(s0).insert(k@) =~= key_set(s0)) by {
            assert(s0[i as int]@ == k@);
        }
        return;
    }
    proof {
        assert forall|j: int| i <= j < s0.len() implies lex_lt(k@, (#[trigger] s0[j])@) by {
            if j > i {
                lemma_lex_transitive(k@, s0[i as int]@, s0[j]@);
            }
        }
    }
    keys.insert(i, k);
    proof {
        s0.insert_ensures(i as int, k);
        let t = keys@;
        assert forall|a: int, b: int| 0 <= a < b < t.len() implies lex_lt(#[trigger] t[a]@, #[trigger] t[b]@) by {
            if a == i {
                assert(t[b] == s0[b - 1]);
            } else if b == i {
                assert(t[a] == s0[a]);
            } else {
                let a2 = if a < i { a } else { a - 1 };
                let b2 = if b < i { b } else { b - 1 };
                assert(t[a] == s0[a2]);
                assert(t[b] == s0[b2]);
            }
        }
        assert forall|x: Seq<u8>| key_set(t).contains(x) <==> key_set(s0).insert(k@).contains(x) by {
            if key_set(t).contains(x) {
                let j = choose|j: int| 0 <= j < t.len() && (#[trigger] t[j])@ == x;
                if j < i {
                    assert(t[j] == s0[j]);
                } else if j > i {
                    assert(t[j] == s0[j - 1]);
                }
            }
            if key_set(s0).contains(x) {
                let j = choose|j: int| 0 <= j < s0.len() && (#[trigger] s0[j])@ == x;
                if j < i {
                    assert(t[j] == s0[j]);
                } else {
                    assert(t[j + 1] == s0[j]);
                }
            }
            if x == k@ {
                assert(t[i as int] == k);
            }
        }
        assert(key_set(t) =~= key_set(s0).insert(k@));
    }
}

} // verus!
