//! What every sender queue keeps: the shape that `insert` and
//! `remove_confirmed` preserve, and the fact that no transaction is lost or
//! duplicated by an insertion.

use vstd::prelude::*;

use crate::txpool::ordering::{
    expected_nonce, first_at_least_from, insert_spec, nonce_above, promote, queue_contents, queue_wf,
    queued_position, queued_sorted, remove_confirmed_spec, OrderedTxView, SenderQueueView,
};

verus! {

broadcast use vstd::multiset::group_multiset_axioms;

/// Pending nonces run consecutively from `next_nonce`.
pub open spec fn consecutive_from(next_nonce: u64, s: Seq<OrderedTxView>) -> bool {
    forall|i: int| 0 <= i < s.len() ==> #[trigger] s[i].nonce == next_nonce + i
}

pub proof fn lemma_first_at_least(s: Seq<OrderedTxView>, nonce: u64, i: int)
    requires
        0 <= i <= s.len(),
    ensures
        i <= first_at_least_from(s, nonce, i) <= s.len(),
        forall|j: int| i <= j < first_at_least_from(s, nonce, i) ==> #[trigger] s[j].nonce < nonce,
        first_at_least_from(s, nonce, i) < s.len() ==> s[first_at_least_from(s, nonce, i)].nonce
            >= nonce,
    decreases s.len() - i,
{
    if i < s.len() && s[i].nonce < nonce {
        lemma_first_at_least(s, nonce, i + 1);
    }
}

pub proof fn lemma_promote_keeps_order(next_nonce: u64, p: Seq<OrderedTxView>, q: Seq<OrderedTxView>)
    ensures
        promote(next_nonce, p, q).0 + promote(next_nonce, p, q).1 == p + q,
    decreases q.len(),
{
    if q.len() > 0 && q[0].nonce == next_nonce + p.len() {
        lemma_promote_keeps_order(next_nonce, p.push(q[0]), q.drop_first());
        assert(p.push(q[0]) + q.drop_first() =~= p + q);
    }
}

proof fn lemma_promote_wf(next_nonce: u64, p: Seq<OrderedTxView>, q: Seq<OrderedTxView>)
    requires
        consecutive_from(next_nonce, p),
        queued_sorted(q),
    ensures
        consecutive_from(next_nonce, promote(next_nonce, p, q).0),
        queued_sorted(promote(next_nonce, p, q).1),
    decreases q.len(),
{
    if q.len() > 0 && q[0].nonce == next_nonce + p.len() {
        let p2 = p.push(q[0]);
        let q2 = q.drop_first();
        assert(consecutive_from(next_nonce, p2));
        assert(queued_sorted(q2)) by {
            assert forall|i: int, j: int| 0 <= i <= j < q2.len() implies #[trigger] q2[i].nonce
                <= #[trigger] q2[j].nonce by {
                assert(q2[i] == q[i + 1]);
                assert(q2[j] == q[j + 1]);
            }
        }
        lemma_promote_wf(next_nonce, p2, q2);
    }
}

proof fn lemma_multiset_insert_at<A>(s: Seq<A>, i: int, x: A)
    requires
        0 <= i <= s.len(),
    ensures
        s.insert(i, x).to_multiset() == s.to_multiset().insert(x),
{
    let t = s.insert(i, x);
    s.insert_ensures(i, x);
    t.remove_ensures(i);
    assert(t.remove(i) =~= s);
    t.to_multiset_ensures();
    assert(t.contains(x)) by {
        assert(t[i] == x);
    }
    assert(t.to_multiset().count(x) > 0);
    assert(s.to_multiset().insert(x) =~= t.to_multiset());
}

proof fn lemma_multiset_update_at<A>(s: Seq<A>, i: int, x: A)
    requires
        0 <= i < s.len(),
    ensures
        s.update(i, x).to_multiset().insert(s[i]) == s.to_multiset().insert(x),
{
    let t = s.update(i, x);
    t.remove_ensures(i);
    s.remove_ensures(i);
    assert(t.remove(i) =~= s.remove(i));
    t.to_multiset_ensures();
    s.to_multiset_ensures();
    let a = t.remove(i).to_multiset();
    assert(a == t.to_multiset().remove(t[i]));
    assert(a == s.to_multiset().remove(s[i]));
    assert(t[i] == x);
    assert(t.contains(x)) by {
        assert(t[i] == x);
    }
    assert(s.contains(s[i]));
    assert(t.to_multiset().count(x) > 0);
    assert(s.to_multiset().count(s[i]) > 0);
    let mt = t.to_multiset();
    let ms = s.to_multiset();
    assert forall|v: A| #[trigger] mt.insert(s[i]).count(v) == ms.insert(x).count(v) by {
        assert(mt.remove(x).count(v) == ms.remove(s[i]).count(v));
    }
    assert(mt.insert(s[i]) =~= ms.insert(x));
}

proof fn lemma_insert_queued_sorted(q: Seq<OrderedTxView>, tx: OrderedTxView)
    requires
        queued_sorted(q),
    ensures
        queued_sorted(q.insert(queued_position(q, tx.nonce), tx)),
{
    let pos = queued_position(q, tx.nonce);
    lemma_first_at_least(q, tx.nonce, 0);
    let s = q.insert(pos, tx);
    q.insert_ensures(pos, tx);
    assert forall|i: int, j: int| 0 <= i <= j < s.len() implies #[trigger] s[i].nonce
        <= #[trigger] s[j].nonce by {
        if j < pos {
            assert(s[i] == q[i]);
            assert(s[j] == q[j]);
        } else if j == pos {
            if i < pos {
                assert(s[i] == q[i]);
            }
        } else {
            assert(s[j] == q[j - 1]);
            assert(q[pos].nonce >= tx.nonce);
            assert(q[pos].nonce <= q[j - 1].nonce);
            if i < pos {
                assert(s[i] == q[i]);
            } else if i == pos {
            } else {
                assert(s[i] == q[i - 1]);
            }
        }
    }
}

/// Inserting into a well-formed queue keeps it well formed: pending nonces
/// stay consecutive from `next_nonce` and queued nonces stay in order.
pub proof fn lemma_insert_preserves_wf(q: SenderQueueView, tx: OrderedTxView)
    requires
        queue_wf(q),
    ensures
        queue_wf(insert_spec(q, tx).0),
{
    if tx.nonce < q.next_nonce {
    } else if tx.nonce == expected_nonce(q) {
        let p = q.pending.push(tx);
        assert(consecutive_from(q.next_nonce, p));
        lemma_promote_wf(q.next_nonce, p, q.queued);
    } else if tx.nonce > expected_nonce(q) {
        lemma_insert_queued_sorted(q.queued, tx);
    } else {
        let idx = tx.nonce - q.next_nonce;
        if tx.effective_gas_price > q.pending[idx].effective_gas_price {
            let p = q.pending.update(idx, tx);
            assert(consecutive_from(q.next_nonce, p));
        }
    }
}

/// An insertion loses and duplicates nothing: the queue's contents plus the
/// transaction handed back equal the old contents plus the inserted one.
pub proof fn lemma_insert_conserves(q: SenderQueueView, tx: OrderedTxView)
    ensures
        ({
            let (q2, ret) = insert_spec(q, tx);
            match ret {
                Some(x) => queue_contents(q2).insert(x) == queue_contents(q).insert(tx),
                None => queue_contents(q2) == queue_contents(q).insert(tx),
            }
        }),
{
    if tx.nonce < q.next_nonce {
    } else if tx.nonce == expected_nonce(q) {
        let p = q.pending.push(tx);
        lemma_promote_keeps_order(q.next_nonce, p, q.queued);
        assert(p + q.queued =~= (q.pending + q.queued).insert(q.pending.len() as int, tx));
        lemma_multiset_insert_at(q.pending + q.queued, q.pending.len() as int, tx);
    } else if tx.nonce > expected_nonce(q) {
        let pos = queued_position(q.queued, tx.nonce);
        lemma_first_at_least(q.queued, tx.nonce, 0);
        assert(q.pending + q.queued.insert(pos, tx) =~= (q.pending + q.queued).insert(
            q.pending.len() + pos,
            tx,
        ));
        lemma_multiset_insert_at(q.pending + q.queued, q.pending.len() + pos, tx);
    } else {
        let idx = tx.nonce - q.next_nonce;
        if tx.effective_gas_price > q.pending[idx].effective_gas_price {
            assert(q.pending.update(idx, tx) + q.queued =~= (q.pending + q.queued).update(idx, tx));
            lemma_multiset_update_at(q.pending + q.queued, idx, tx);
        }
    }
}

/// Removing confirmed transactions keeps a queue well formed, and leaves no
/// transaction whose nonce is at or below the confirmed one.
pub proof fn lemma_remove_confirmed_preserves_wf(q: SenderQueueView, confirmed: u64)
    requires
        queue_wf(q),
        confirmed < u64::MAX,
    ensures
        queue_wf(remove_confirmed_spec(q, confirmed)),
        forall|i: int|
            0 <= i < remove_confirmed_spec(q, confirmed).pending.len() ==> #[trigger] remove_confirmed_spec(
                q,
                confirmed,
            ).pending[i].nonce > confirmed,
        forall|i: int|
            0 <= i < remove_confirmed_spec(q, confirmed).queued.len() ==> #[trigger] remove_confirmed_spec(
                q,
                confirmed,
            ).queued[i].nonce > confirmed,
{
    let f = nonce_above(confirmed);
    let q2 = remove_confirmed_spec(q, confirmed);
    lemma_filter_of_consecutive(q.next_nonce, q.pending, confirmed, q.pending.len() as int);
    lemma_filter_of_sorted(q.queued, f);
    broadcast use vstd::seq_lib::group_filter_ensures;
}

/// Filtering a consecutive run by `nonce > confirmed` leaves a consecutive
/// run starting just above the larger of `confirmed` and the run's start.
proof fn lemma_filter_of_consecutive(next_nonce: u64, s: Seq<OrderedTxView>, confirmed: u64, n: int)
    requires
        consecutive_from(next_nonce, s),
        confirmed < u64::MAX,
        n == s.len(),
    ensures
        consecutive_from(
            if confirmed >= next_nonce { (confirmed + 1) as u64 } else { next_nonce },
            s.filter(nonce_above(confirmed)),
        ),
    decreases n,
{
    reveal(Seq::filter);
    let f = nonce_above(confirmed);
    let start = if confirmed >= next_nonce { (confirmed + 1) as u64 } else { next_nonce };
    if s.len() > 0 {
        let s0 = s.drop_last();
        assert(consecutive_from(next_nonce, s0));
        lemma_filter_of_consecutive(next_nonce, s0, confirmed, n - 1);
        let r0 = s0.filter(f);
        if f(s.last()) {
            // the kept prefix ends just below the last element
            lemma_filter_consecutive_len(next_nonce, s0, confirmed);
            assert(s.filter(f) == r0.push(s.last()));
        }
    }
}

/// Length of the kept part of a consecutive run.
proof fn lemma_filter_consecutive_len(next_nonce: u64, s: Seq<OrderedTxView>, confirmed: u64)
    requires
        consecutive_from(next_nonce, s),
        confirmed < u64::MAX,
    ensures
        s.filter(nonce_above(confirmed)).len() == if confirmed >= next_nonce {
            if next_nonce + s.len() > confirmed + 1 { next_nonce + s.len() - confirmed - 1 } else { 0 }
        } else {
            s.len() as int
        },
    decreases s.len(),
{
    reveal(Seq::filter);
    if s.len() > 0 {
        let s0 = s.drop_last();
        assert(consecutive_from(next_nonce, s0));
        lemma_filter_consecutive_len(next_nonce, s0, confirmed);
    }
}

/// Filtering keeps a list of queued nonces in order.
proof fn lemma_filter_of_sorted(s: Seq<OrderedTxView>, f: spec_fn(OrderedTxView) -> bool)
    requires
        queued_sorted(s),
    ensures
        queued_sorted(s.filter(f)),
    decreases s.len(),
{
    reveal(Seq::filter);
    if s.len() > 0 {
        let s0 = s.drop_last();
        assert(queued_sorted(s0));
        lemma_filter_of_sorted(s0, f);
        if f(s.last()) {
            let r0 = s0.filter(f);
            let r = r0.push(s.last());
            assert forall|i: int, j: int| 0 <= i <= j < r.len() implies #[trigger] r[i].nonce
                <= #[trigger] r[j].nonce by {
                if j == r.len() - 1 && i < j {
                    assert(r[i] == r0[i]);
                    assert(r0.contains(r0[i]));
                    s0.lemma_filter_contains_rev(f, r0[i]);
                    assert(s0.contains(r0[i]));
                    let k = choose|k: int| 0 <= k < s0.len() && s0[k] == r0[i];
                    assert(s[k] == s0[k]);
                }
            }
        }
    }
}

/// Queued nonces strictly increase.
pub open spec fn queued_strictly_sorted(s: Seq<OrderedTxView>) -> bool {
    forall|i: int, j: int| 0 <= i < j < s.len() ==> #[trigger] s[i].nonce < #[trigger] s[j].nonce
}

/// The full shape of a queue: pending nonces run consecutively from
/// `next_nonce`, and the queued ones strictly increase, all above the
/// pending run (they wait for a gap to fill).
pub open spec fn queue_strict(q: SenderQueueView) -> bool {
    &&& consecutive_from(q.next_nonce, q.pending)
    &&& queued_strictly_sorted(q.queued)
    &&& forall|i: int| 0 <= i < q.queued.len() ==> #[trigger] q.queued[i].nonce > expected_nonce(q)
}

proof fn lemma_promote_strict(next_nonce: u64, p: Seq<OrderedTxView>, q: Seq<OrderedTxView>)
    requires
        consecutive_from(next_nonce, p),
        queued_strictly_sorted(q),
        forall|i: int| 0 <= i < q.len() ==> #[trigger] q[i].nonce >= next_nonce + p.len(),
    ensures
        ({
            let (p2, q2) = promote(next_nonce, p, q);
            &&& consecutive_from(next_nonce, p2)
            &&& queued_strictly_sorted(q2)
            &&& forall|i: int| 0 <= i < q2.len() ==> #[trigger] q2[i].nonce > next_nonce + p2.len()
        }),
    decreases q.len(),
{
    if q.len() > 0 && q[0].nonce == next_nonce + p.len() {
        let p2 = p.push(q[0]);
        let q2 = q.drop_first();
        assert(consecutive_from(next_nonce, p2));
        assert forall|i: int, j: int| 0 <= i < j < q2.len() implies #[trigger] q2[i].nonce
            < #[trigger] q2[j].nonce by {
            assert(q2[i] == q[i + 1]);
            assert(q2[j] == q[j + 1]);
        }
        assert forall|i: int| 0 <= i < q2.len() implies #[trigger] q2[i].nonce >= next_nonce + p2.len() by {
            assert(q2[i] == q[i + 1]);
            assert(q[0].nonce < q[i + 1].nonce);
        }
        lemma_promote_strict(next_nonce, p2, q2);
    } else if q.len() > 0 {
        assert forall|i: int| 0 <= i < q.len() implies #[trigger] q[i].nonce > next_nonce + p.len() by {
            if i > 0 {
                assert(q[0].nonce < q[i].nonce);
            }
        }
    }
}

proof fn lemma_insert_queued_strict(q: Seq<OrderedTxView>, tx: OrderedTxView)
    requires
        queued_strictly_sorted(q),
        forall|i: int| 0 <= i < q.len() ==> #[trigger] q[i].nonce != tx.nonce,
    ensures
        queued_strictly_sorted(q.insert(queued_position(q, tx.nonce), tx)),
{
    let pos = queued_position(q, tx.nonce);
    lemma_first_at_least(q, tx.nonce, 0);
    let s = q.insert(pos, tx);
    q.insert_ensures(pos, tx);
    assert forall|i: int, j: int| 0 <= i < j < s.len() implies #[trigger] s[i].nonce
        < #[trigger] s[j].nonce by {
        if j < pos {
            assert(s[i] == q[i]);
            assert(s[j] == q[j]);
        } else if j == pos {
            assert(s[i] == q[i]);
        } else {
            assert(s[j] == q[j - 1]);
            assert(q[pos].nonce > tx.nonce);
            if i < pos {
                assert(s[i] == q[i]);
            } else if i == pos {
                if j - 1 > pos {
                    assert(q[pos].nonce < q[j - 1].nonce);
                }
            } else {
                assert(s[i] == q[i - 1]);
            }
        }
    }
}

/// Inserting a transaction whose nonce no queued transaction carries keeps
/// the full shape of a queue: queued nonces stay strictly increasing and
/// above the pending run, which stays consecutive. (A second queued
/// transaction with a nonce already queued is kept beside the first, so the
/// strict order needs that nonce to be new.)
pub proof fn lemma_insert_keeps_strict_shape(q: SenderQueueView, tx: OrderedTxView)
    requires
        queue_strict(q),
        forall|i: int| 0 <= i < q.queued.len() ==> #[trigger] q.queued[i].nonce != tx.nonce,
    ensures
        queue_strict(insert_spec(q, tx).0),
{
    if tx.nonce < q.next_nonce {
    } else if tx.nonce == expected_nonce(q) {
        let p = q.pending.push(tx);
        assert(consecutive_from(q.next_nonce, p));
        lemma_promote_strict(q.next_nonce, p, q.queued);
    } else if tx.nonce > expected_nonce(q) {
        lemma_insert_queued_strict(q.queued, tx);
        let pos = queued_position(q.queued, tx.nonce);
        lemma_first_at_least(q.queued, tx.nonce, 0);
        let s = q.queued.insert(pos, tx);
        q.queued.insert_ensures(pos, tx);
        assert forall|i: int| 0 <= i < s.len() implies #[trigger] s[i].nonce > expected_nonce(q) by {
            if i < pos {
                assert(s[i] == q.queued[i]);
            } else if i > pos {
                assert(s[i] == q.queued[i - 1]);
            }
        }
    } else {
        let idx = tx.nonce - q.next_nonce;
        if tx.effective_gas_price > q.pending[idx].effective_gas_price {
            let p = q.pending.update(idx, tx);
            assert(consecutive_from(q.next_nonce, p));
        }
    }
}

} // verus!
