//! Sequences of records with distinct keys, read as maps.

use vstd::prelude::*;

verus! {

/// The map from key to record that a sequence of records stands for.
pub open spec fn keyed_map<K, V>(s: Seq<V>, key: spec_fn(V) -> K) -> Map<K, V>
    decreases s.len(),
{
    if s.len() == 0 {
        Map::empty()
    } else {
        keyed_map(s.drop_last(), key).insert(key(s.last()), s.last())
    }
}

/// No two records of `s` share a key.
pub open spec fn keys_distinct<K, V>(s: Seq<V>, key: spec_fn(V) -> K) -> bool {
    forall|i: int, j: int| 0 <= i < j < s.len() ==> key(#[trigger] s[i]) != key(#[trigger] s[j])
}

/// A key is in the map exactly when some record carries it.
pub proof fn lemma_keyed_map_dom<K, V>(s: Seq<V>, key: spec_fn(V) -> K, k: K)
    ensures
        keyed_map(s, key).contains_key(k) <==> exists|i: int| 0 <= i < s.len() && key(s[i]) == k,
    decreases s.len(),
{
    if s.len() > 0 {
        lemma_keyed_map_dom(s.drop_last(), key, k);
        if keyed_map(s, key).contains_key(k) {
            if key(s.last()) != k {
                let i = choose|i: int| 0 <= i < s.len() - 1 && key(s.drop_last()[i]) == k;
                assert(s[i] == s.drop_last()[i]);
            }
        }
        if exists|i: int| 0 <= i < s.len() && key(s[i]) == k {
            let i = choose|i: int| 0 <= i < s.len() && key(s[i]) == k;
            if i < s.len() - 1 {
                assert(s.drop_last()[i] == s[i]);
            }
        }
    }
}

/// The map sends each record's key to that record.
pub proof fn lemma_keyed_map_index<K, V>(s: Seq<V>, key: spec_fn(V) -> K, i: int)
    requires
        keys_distinct(s, key),
        0 <= i < s.len(),
    ensures
        keyed_map(s, key).contains_key(key(s[i])),
        keyed_map(s, key)[key(s[i])] == s[i],
    decreases s.len(),
{
    if i < s.len() - 1 {
        let s0 = s.drop_last();
        assert(keys_distinct(s0, key)) by {
            assert forall|a: int, b: int| 0 <= a < b < s0.len() implies key(#[trigger] s0[a]) != key(
                #[trigger] s0[b],
            ) by {
                assert(s0[a] == s[a]);
                assert(s0[b] == s[b]);
            }
        }
        assert(s0[i] == s[i]);
        lemma_keyed_map_index(s0, key, i);
        assert(key(s[i]) != key(s[s.len() - 1]));
    }
}

/// The records of `s` without the last one still have distinct keys.
pub proof fn lemma_keys_distinct_drop_last<K, V>(s: Seq<V>, key: spec_fn(V) -> K)
    requires
        keys_distinct(s, key),
        s.len() > 0,
    ensures
        keys_distinct(s.drop_last(), key),
{
    let s0 = s.drop_last();
    assert forall|a: int, b: int| 0 <= a < b < s0.len() implies key(#[trigger] s0[a]) != key(
        #[trigger] s0[b],
    ) by {
        assert(s0[a] == s[a]);
        assert(s0[b] == s[b]);
    }
}

/// Appending a record with a fresh key.
pub proof fn lemma_keyed_map_push<K, V>(s: Seq<V>, key: spec_fn(V) -> K, v: V)
    requires
        keys_distinct(s, key),
        !keyed_map(s, key).contains_key(key(v)),
    ensures
        keys_distinct(s.push(v), key),
        keyed_map(s.push(v), key) == keyed_map(s, key).insert(key(v), v),
{
    let t = s.push(v);
    assert(t.drop_last() =~= s);
    assert forall|a: int, b: int| 0 <= a < b < t.len() implies key(#[trigger] t[a]) != key(
        #[trigger] t[b],
    ) by {
        if b == t.len() - 1 {
            assert(t[a] == s[a]);
            lemma_keyed_map_dom(s, key, key(v));
        } else {
            assert(t[a] == s[a]);
            assert(t[b] == s[b]);
        }
    }
}

/// Replacing a record by one with the same key.
pub proof fn lemma_keyed_map_update<K, V>(s: Seq<V>, key: spec_fn(V) -> K, i: int, v: V)
    requires
        keys_distinct(s, key),
        0 <= i < s.len(),
        key(v) == key(s[i]),
    ensures
        keys_distinct(s.update(i, v), key),
        keyed_map(s.update(i, v), key) == keyed_map(s, key).insert(key(v), v),
    decreases s.len(),
{
    let t = s.update(i, v);
    assert forall|a: int, b: int| 0 <= a < b < t.len() implies key(#[trigger] t[a]) != key(
        #[trigger] t[b],
    ) by {
        assert(key(t[a]) == key(s[a]));
        assert(key(t[b]) == key(s[b]));
    }
    if i == s.len() - 1 {
        assert(t.drop_last() =~= s.drop_last());
        assert(keyed_map(t, key) =~= keyed_map(s, key).insert(key(v), v));
    } else {
        lemma_keys_distinct_drop_last(s, key);
        lemma_keyed_map_update(s.drop_last(), key, i, v);
        assert(t.drop_last() =~= s.drop_last().update(i, v));
        assert(key(s.last()) != key(s[i]));
        assert(keyed_map(t, key) =~= keyed_map(s, key).insert(key(v), v));
    }
}

/// Removing a record.
pub proof fn lemma_keyed_map_remove<K, V>(s: Seq<V>, key: spec_fn(V) -> K, i: int)
    requires
        keys_distinct(s, key),
        0 <= i < s.len(),
    ensures
        keys_distinct(s.remove(i), key),
        keyed_map(s.remove(i), key) == keyed_map(s, key).remove(key(s[i])),
    decreases s.len(),
{
    let t = s.remove(i);
    s.remove_ensures(i);
    assert forall|a: int, b: int| 0 <= a < b < t.len() implies key(#[trigger] t[a]) != key(
        #[trigger] t[b],
    ) by {
        let a2 = if a < i { a } else { a + 1 };
        let b2 = if b < i { b } else { b + 1 };
        assert(t[a] == s[a2]);
        assert(t[b] == s[b2]);
    }
    lemma_keys_distinct_drop_last(s, key);
    if i == s.len() - 1 {
        assert(t =~= s.drop_last());
        lemma_keyed_map_dom(s.drop_last(), key, key(s[i]));
        if keyed_map(s.drop_last(), key).contains_key(key(s[i])) {
            let j = choose|j: int| 0 <= j < s.len() - 1 && key(s.drop_last()[j]) == key(s[i]);
            assert(s.drop_last()[j] == s[j]);
        }
        assert(keyed_map(t, key) =~= keyed_map(s, key).remove(key(s[i])));
    } else {
        lemma_keyed_map_remove(s.drop_last(), key, i);
        assert(t.drop_last() =~= s.drop_last().remove(i));
        assert(t.last() == s.last());
        assert(key(s.last()) != key(s[i]));
        assert(keyed_map(t, key) =~= keyed_map(s, key).remove(key(s[i])));
    }
}

/// Inserting a record with a fresh key at any position.
pub proof fn lemma_keyed_map_insert<K, V>(s: Seq<V>, key: spec_fn(V) -> K, p: int, v: V)
    requires
        keys_distinct(s, key),
        0 <= p <= s.len(),
        !keyed_map(s, key).contains_key(key(v)),
    ensures
        keys_distinct(s.insert(p, v), key),
        keyed_map(s.insert(p, v), key) == keyed_map(s, key).insert(key(v), v),
{
    let t = s.insert(p, v);
    s.insert_ensures(p, v);
    lemma_keyed_map_dom(s, key, key(v));
    assert forall|a: int, b: int| 0 <= a < b < t.len() implies key(#[trigger] t[a]) != key(#[trigger] t[b]) by {
        if a == p {
            assert(t[b] == s[b - 1]);
        } else if b == p {
            assert(t[a] == s[a]);
        } else {
            let a2 = if a < p { a } else { a - 1 };
            let b2 = if b < p { b } else { b - 1 };
            assert(t[a] == s[a2]);
            assert(t[b] == s[b2]);
        }
    }
    let m = keyed_map(s, key).insert(key(v), v);
    assert forall|k: K| #[trigger] keyed_map(t, key).contains_key(k) <==> m.contains_key(k) by {
        lemma_keyed_map_dom(t, key, k);
        lemma_keyed_map_dom(s, key, k);
        if keyed_map(t, key).contains_key(k) {
            let i = choose|i: int| 0 <= i < t.len() && key(t[i]) == k;
            if i < p {
                assert(t[i] == s[i]);
            } else if i > p {
                assert(t[i] == s[i - 1]);
            }
        }
        if keyed_map(s, key).contains_key(k) {
            let i = choose|i: int| 0 <= i < s.len() && key(s[i]) == k;
            if i < p {
                assert(t[i] == s[i]);
            } else {
                assert(t[i + 1] == s[i]);
            }
        }
        if k == key(v) {
            assert(t[p] == v);
        }
    }
    assert forall|k: K| #[trigger] keyed_map(t, key).contains_key(k) implies keyed_map(t, key)[k] == m[k] by {
        lemma_keyed_map_dom(t, key, k);
        let i = choose|i: int| 0 <= i < t.len() && key(t[i]) == k;
        lemma_keyed_map_index(t, key, i);
        if i == p {
        } else {
            let j = if i < p { i } else { i - 1 };
            assert(t[i] == s[j]);
            lemma_keyed_map_index(s, key, j);
        }
    }
    assert(keyed_map(t, key) =~= m);
}

} // verus!
