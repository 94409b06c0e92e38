//! The order in which pending transactions are served: highest effective gas
//! price first, then earliest arrival, then lowest hash.

use core::cmp::Ordering;
use vstd::prelude::*;

use crate::bytes::{compare_bytes32, eq_bytes32, lemma_lex_irreflexive, lemma_lex_total, lemma_lex_transitive, lex_lt};
use crate::txpool::ordering::{view_seq, OrderedTransaction, OrderedTxView};

verus! {

broadcast use vstd::multiset::group_multiset_axioms;

/// `a` is served strictly before `b`.
pub open spec fn served_before(a: OrderedTxView, b: OrderedTxView) -> bool {
    ||| a.effective_gas_price > b.effective_gas_price
    ||| a.effective_gas_price == b.effective_gas_price && a.timestamp < b.timestamp
    ||| a.effective_gas_price == b.effective_gas_price && a.timestamp == b.timestamp && lex_lt(
        a.hash,
        b.hash,
    )
}

/// The three-way comparison that the serving order induces.
pub open spec fn priority_ordering(a: OrderedTxView, b: OrderedTxView) -> Ordering {
    if served_before(a, b) {
        Ordering::Less
    } else if served_before(b, a) {
        Ordering::Greater
    } else {
        Ordering::Equal
    }
}

/// No transaction is served before itself.
pub proof fn lemma_served_before_irreflexive(a: OrderedTxView)
    ensures
        !served_before(a, a),
{
    lemma_lex_irreflexive(a.hash);
}

/// The serving order is transitive.
pub proof fn lemma_served_before_transitive(a: OrderedTxView, b: OrderedTxView, c: OrderedTxView)
    requires
        served_before(a, b),
        served_before(b, c),
    ensures
        served_before(a, c),
{
    if a.effective_gas_price == c.effective_gas_price && a.timestamp == c.timestamp {
        lemma_lex_transitive(a.hash, b.hash, c.hash);
    }
}

/// The serving order is asymmetric.
pub proof fn lemma_served_before_asymmetric(a: OrderedTxView, b: OrderedTxView)
    requires
        served_before(a, b),
    ensures
        !served_before(b, a),
{
    if served_before(b, a) {
        lemma_served_before_transitive(a, b, a);
        lemma_served_before_irreflexive(a);
    }
}

/// Two transactions with 32-byte hashes that differ in hash are always
/// ordered one way or the other.
pub proof fn lemma_served_before_total(a: OrderedTxView, b: OrderedTxView)
    requires
        a.hash.len() == 32,
        b.hash.len() == 32,
        a.hash != b.hash,
    ensures
        served_before(a, b) || served_before(b, a),
{
    lemma_lex_total(a.hash, b.hash);
}

/// Of two transactions, the one with the higher effective gas price is
/// served first, whatever their arrival times and hashes.
pub proof fn lemma_higher_price_served_first(a: OrderedTxView, b: OrderedTxView)
    requires
        a.effective_gas_price > b.effective_gas_price,
    ensures
        served_before(a, b),
        !served_before(b, a),
{
}

/// At equal effective gas price, the transaction that arrived earlier
/// (smaller timestamp) is served first, whatever their hashes.
pub proof fn lemma_earlier_arrival_served_first(a: OrderedTxView, b: OrderedTxView)
    requires
        a.effective_gas_price == b.effective_gas_price,
        a.timestamp < b.timestamp,
    ensures
        served_before(a, b),
        !served_before(b, a),
{
}

/// At equal effective gas price and equal arrival time, the transaction
/// with the lexicographically smaller hash is served first.
pub proof fn lemma_equal_price_and_arrival_by_hash(a: OrderedTxView, b: OrderedTxView)
    requires
        a.effective_gas_price == b.effective_gas_price,
        a.timestamp == b.timestamp,
    ensures
        served_before(a, b) <==> lex_lt(a.hash, b.hash),
{
}

/// Nothing later in the sequence is served before anything earlier.
pub open spec fn sorted_by_priority(s: Seq<OrderedTxView>) -> bool {
    forall|i: int, j: int| 0 <= i < j < s.len() ==> !served_before(#[trigger] s[j], #[trigger] s[i])
}

/// In a sequence in serving order, a transaction with a higher effective
/// gas price comes before one with a lower price, and at equal price the
/// earlier arrival comes before the later one.
pub proof fn lemma_sorted_price_then_arrival(s: Seq<OrderedTxView>, i: int, j: int)
    requires
        sorted_by_priority(s),
        0 <= i < s.len(),
        0 <= j < s.len(),
        s[i].effective_gas_price > s[j].effective_gas_price || (s[i].effective_gas_price
            == s[j].effective_gas_price && s[i].timestamp < s[j].timestamp),
    ensures
        i < j,
{
    if j <= i {
        assert(served_before(s[i], s[j]));
        if j == i {
            lemma_served_before_irreflexive(s[i]);
        }
    }
}

/// Whether `a` is served strictly before `b`.
pub fn is_served_before(a: &OrderedTransaction, b: &OrderedTransaction) -> (r: bool)
    ensures
        r == served_before(a@, b@),
        a.effective_gas_price > b.effective_gas_price ==> r,
        a.effective_gas_price < b.effective_gas_price ==> !r,
        a.effective_gas_price == b.effective_gas_price && a.timestamp < b.timestamp ==> r,
        a.effective_gas_price == b.effective_gas_price && a.timestamp > b.timestamp ==> !r,
{
    if a.effective_gas_price != b.effective_gas_price {
        return a.effective_gas_price > b.effective_gas_price;
    }
    if a.timestamp != b.timestamp {
        return a.timestamp < b.timestamp;
    }
    compare_bytes32(&a.hash, &b.hash) < 0
}

/// Three-way comparison in serving order (`Less` means served first).
pub fn priority_compare(a: &OrderedTransaction, b: &OrderedTransaction) -> (r: Ordering)
    ensures
        r == priority_ordering(a@, b@),
{
    if is_served_before(a, b) {
        Ordering::Less
    } else if is_served_before(b, a) {
        Ordering::Greater
    } else {
        Ordering::Equal
    }
}

impl PartialEq for OrderedTransaction {
    /// Transactions are equal when their hashes are.
    fn eq(&self, other: &Self) -> (r: bool) {
        eq_bytes32(&self.hash, &other.hash)
    }
}

impl vstd::std_specs::cmp::PartialEqSpecImpl for OrderedTransaction {
    open spec fn obeys_eq_spec() -> bool {
        true
    }

    open spec fn eq_spec(&self, other: &OrderedTransaction) -> bool {
        self.hash@ == other.hash@
    }
}

impl Eq for OrderedTransaction {}

impl PartialOrd for OrderedTransaction {
    fn partial_cmp(&self, other: &Self) -> (r: Option<Ordering>) {
        Some(priority_compare(self, other))
    }
}

impl vstd::std_specs::cmp::PartialOrdSpecImpl for OrderedTransaction {
    open spec fn obeys_partial_cmp_spec() -> bool {
        true
    }

    open spec fn partial_cmp_spec(&self, other: &OrderedTransaction) -> Option<Ordering> {
        Some(priority_ordering(self@, other@))
    }
}

/// Index of the first element of `s` that `x` is served before (the length
/// when there is none).
fn insertion_point(s: &Vec<OrderedTransaction>, x: &OrderedTransaction) -> (p: usize)
    ensures
        p <= s.len(),
        forall|k: int| 0 <= k < p ==> !served_before(x@, #[trigger] view_seq(s@)[k]),
        p < s.len() ==> served_before(x@, view_seq(s@)[p as int]),
{
    let mut i: usize = 0;
    while i < s.len()
        invariant
            0 <= i <= s.len(),
            forall|k: int| 0 <= k < i ==> !served_before(x@, #[trigger] view_seq(s@)[k]),
        decreases s.len() - i,
    {
        if is_served_before(x, &s[i]) {
            return i;
        }
        i = i + 1;
    }
    i
}

/// Sorts transactions into serving order (a stable insertion sort).
pub fn sort_by_priority(v: Vec<OrderedTransaction>) -> (r: Vec<OrderedTransaction>)
    ensures
        sorted_by_priority(view_seq(r@)),
        view_seq(r@).to_multiset() == view_seq(v@).to_multiset(),
{
    let ghost src = view_seq(v@);
    let mut v = v;
    let mut r: Vec<OrderedTransaction> = Vec::new();
    let mut taken: usize = 0;
    let n = v.len();
    proof {
        assert(view_seq(r@) =~= Seq::<OrderedTxView>::empty());
        assert(src.take(0) =~= Seq::<OrderedTxView>::empty());
    }
    assert(src.skip(0) =~= src);
    while taken < n
        invariant
            0 <= taken <= n,
            n == src.len(),
            view_seq(v@) == src.skip(taken as int),
            v.len() == n - taken,
            sorted_by_priority(view_seq(r@)),
            view_seq(r@).to_multiset() == src.take(taken as int).to_multiset(),
        decreases n - taken,
    {
        let ghost v0 = v@;
        let x = v.remove(0);
        proof {
            crate::txpool::ordering::lemma_view_seq_remove(v0, 0);
            assert(view_seq(v0)[0] == x@);
            assert(x@ == src[taken as int]);
            assert(view_seq(v0).remove(0) =~= src.skip(taken + 1));
        }
        let p = insertion_point(&r, &x);
        let ghost r0 = view_seq(r@);
        let ghost rv0 = r@;
        r.insert(p, x);
        proof {
            crate::txpool::ordering::lemma_view_seq_insert(rv0, p as int, x);
            let r1 = view_seq(r@);
            r0.insert_ensures(p as int, x@);
            assert forall|i: int, j: int| 0 <= i < j < r1.len() implies !served_before(
                #[trigger] r1[j],
                #[trigger] r1[i],
            ) by {
                if j < p {
                    assert(r1[i] == r0[i]);
                    assert(r1[j] == r0[j]);
                } else if j == p {
                    assert(r1[i] == r0[i]);
                } else if i == p {
                    assert(r1[j] == r0[j - 1]);
                    if j - 1 == p {
                        lemma_served_before_irreflexive(r0[p as int]);
                    } else {
                        assert(!served_before(r0[j - 1], r0[p as int]));
                    }
                    if served_before(r0[j - 1], x@) {
                        lemma_served_before_transitive(r0[j - 1], x@, r0[p as int]);
                    }
                } else if i < p {
                    assert(r1[i] == r0[i]);
                    assert(r1[j] == r0[j - 1]);
                } else {
                    assert(r1[i] == r0[i - 1]);
                    assert(r1[j] == r0[j - 1]);
                }
            }
            lemma_multiset_insert_at(r0, p as int, x@);
            assert(src.take(taken + 1) =~= src.take(taken as int).push(x@));
            src.take(taken as int).to_multiset_ensures();
        }
        taken = taken + 1;
    }
    proof {
        assert(src.take(n as int) =~= src);
    }
    r
}

proof fn lemma_multiset_insert_at<A>(s: Seq<A>, i: int, x: A)
    requires
        0 <= i <= s.len(),
    ensures
        s.insert(i, x).to_multiset() == s.to_multiset().insert(x),
{
    let t = s.insert(i, x);
    s.insert_ensures(i, x);
    t.remove_ensures(i);
    assert(t.remove(i) =~= s);
    t.to_multiset_ensures();
    assert(t.contains(x)) by {
        assert(t[i] == x);
    }
    assert(t.to_multiset().count(x) > 0);
    assert(s.to_multiset().insert(x) =~= t.to_multiset());
}

} // verus!
