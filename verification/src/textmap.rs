//! Maps from text to text kept as a vector of (key, value) pairs in
//! ascending key order, each key once: the order in which a
//! `BTreeMap<String, String>` holds and serializes its entries.

use crate::keyed::{keyed_map, keys_distinct, lemma_keyed_map_dom, lemma_keyed_map_insert, lemma_keyed_map_update};
use crate::text::{compare_text, lemma_text_irreflexive, lemma_text_transitive, text_lt};
use vstd::prelude::*;

verus! {

/// An entry is keyed by its first string.
pub open spec fn entry_key() -> spec_fn((String, String)) -> Seq<char> {
    |e: (String, String)| e.0@
}

/// The entries as a map from key to value.
pub open spec fn text_map_view(l: Seq<(String, String)>) -> Map<Seq<char>, Seq<char>> {
    keyed_map(l, entry_key()).map_values(|e: (String, String)| e.1@)
}

/// Entries strictly ascending by key.
pub open spec fn sorted_by_key(l: Seq<(String, String)>) -> bool {
    forall|i: int, j: int| 0 <= i < j < l.len() ==> text_lt(#[trigger] l[i].0@, #[trigger] l[j].0@)
}

/// Entries in ascending key order carry each key once.
pub proof fn lemma_sorted_distinct(l: Seq<(String, String)>)
    requires
        sorted_by_key(l),
    ensures
        keys_distinct(l, entry_key()),
{
    assert forall|a: int, b: int| 0 <= a < b < l.len() implies entry_key()(#[trigger] l[a]) != entry_key()(
        #[trigger] l[b],
    ) by {
        lemma_text_irreflexive(l[a].0@);
    }
}

/// Sets the value of a key, replacing an earlier value of the same key and
/// otherwise inserting the entry where its key belongs.
pub fn insert_sorted(entries: &mut Vec<(String, String)>, key: String, value: String)
    requires
        sorted_by_key(old(entries)@),
    ensures
        sorted_by_key(final(entries)@),
        text_map_view(final(entries)@) == text_map_view(old(entries)@).insert(key@, value@),
{
    let ghost l0 = entries@;
    let ghost k = key@;
    proof {
        lemma_sorted_distinct(l0);
    }
    let mut i: usize = 0;
    while i < entries.len()
        invariant
            0 <= i <= entries.len(),
            entries@ == l0,
            l0 == old(entries)@,
            sorted_by_key(l0),
            keys_distinct(l0, entry_key()),
            k == key@,
            forall|j: int| 0 <= j < i ==> text_lt((#[trigger] l0[j]).0@, k),
        ensures
            i < l0.len() ==> text_lt(k, l0[i as int].0@),
        decreases entries.len() - i,
    {
        let c = compare_text(entries[i].0.as_str(), key.as_str());
        if c == 0 {
            let entry = (key, value);
            proof {
                lemma_keyed_map_update(l0, entry_key(), i as int, entry);
            }
            entries.set(i, entry);
            proof {
                assert(text_map_view(entries@) =~= text_map_view(l0).insert(entry.0@, entry.1@));
                assert forall|a: int, b: int| 0 <= a < b < entries@.len() implies text_lt(
                    #[trigger] entries@[a].0@,
                    #[trigger] entries@[b].0@,
                ) by {
                    assert(entries@[a].0@ == l0[a].0@);
                    assert(entries@[b].0@ == l0[b].0@);
                }
            }
            return;
        }
        if c > 0 {
            break;
        }
        i = i + 1;
    }
    proof {
        assert forall|j: int| i <= j < l0.len() implies text_lt(k, (#[trigger] l0[j]).0@) by {
            if j > i {
                lemma_text_transitive(k, l0[i as int].0@, l0[j].0@);
            }
        }
        assert(!keyed_map(l0, entry_key()).contains_key(k)) by {
            lemma_keyed_map_dom(l0, entry_key(), k);
            if keyed_map(l0, entry_key()).contains_key(k) {
                let j = choose|j: int| 0 <= j < l0.len() && entry_key()(l0[j]) == k;
                lemma_text_irreflexive(k);
            }
        }
    }
    let entry = (key, value);
    proof {
        lemma_keyed_map_insert(l0, entry_key(), i as int, entry);
    }
    entries.insert(i, entry);
    proof {
        l0.insert_ensures(i as int, entry);
        assert(text_map_view(entries@) =~= text_map_view(l0).insert(entry.0@, entry.1@));
        let t = entries@;
        assert forall|a: int, b: int| 0 <= a < b < t.len() implies text_lt(#[trigger] t[a].0@, #[trigger] t[b].0@) by {
            if a == i {
                assert(t[b] == l0[b - 1]);
            } else if b == i {
                assert(t[a] == l0[a]);
            } else {
                let a2 = if a < i { a } else { a - 1 };
                let b2 = if b < i { b } else { b - 1 };
                assert(t[a] == l0[a2]);
                assert(t[b] == l0[b2]);
            }
        }
    }
}

} // verus!
