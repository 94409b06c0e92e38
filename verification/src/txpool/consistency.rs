//! The pool's hash index and its sender queues hold the same transactions:
//! every indexed transaction sits in its sender's queue, and every queued
//! transaction is indexed under its hash, once.

use vstd::prelude::*;

use crate::txpool::ordering::{
    expected_nonce, insert_spec, nonce_above, queued_position, remove_confirmed_spec, OrderedTxView,
    SenderQueueView,
};
use crate::txpool::pool::{
    add_spec, confirmed_hashes, empty_queues_among, hash_not, hits_pending, lemma_run_end, prune_spec,
    put_or_drop, queue_for, queue_key, rebase, remove_from_queues, strip_hash, total_pending, total_queued,
};
use crate::txpool::queue_laws::{lemma_first_at_least, lemma_promote_keeps_order};
use crate::keyed::{keyed_map, keys_distinct, lemma_keyed_map_dom, lemma_keyed_map_index};

verus! {

/// The transactions a queue holds, pending first.
pub open spec fn contents(q: SenderQueueView) -> Seq<OrderedTxView> {
    q.pending + q.queued
}

/// No two entries carry the same hash.
pub open spec fn hashes_unique(s: Seq<OrderedTxView>) -> bool {
    forall|i: int, j: int| 0 <= i < j < s.len() ==> #[trigger] s[i].hash != #[trigger] s[j].hash
}

/// The queue of `sender` holds each of its transactions once, and each is
/// indexed under its hash.
pub open spec fn queue_indexed(txs: Map<Seq<u8>, OrderedTxView>, sender: Seq<u8>, q: SenderQueueView) -> bool {
    &&& q.sender == sender
    &&& hashes_unique(contents(q))
    &&& forall|i: int|
        0 <= i < contents(q).len() ==> {
            &&& (#[trigger] contents(q)[i]).sender == sender
            &&& txs.contains_key(contents(q)[i].hash)
            &&& txs[contents(q)[i].hash] == contents(q)[i]
        }
}

/// The index and the queues describe the same transactions.
pub open spec fn pool_consistent(
    txs: Map<Seq<u8>, OrderedTxView>,
    queues: Map<Seq<u8>, SenderQueueView>,
) -> bool {
    &&& forall|h: Seq<u8>|
        #[trigger] txs.contains_key(h) ==> {
            &&& txs[h].hash == h
            &&& queues.contains_key(txs[h].sender)
            &&& contents(queues[txs[h].sender]).contains(txs[h])
        }
    &&& forall|s: Seq<u8>| #[trigger] queues.contains_key(s) ==> queue_indexed(txs, s, queues[s])
}

/// Hashes of the entries of `q` that `keep` lets go.
pub open spec fn gone_hashes(q: SenderQueueView, keep: spec_fn(OrderedTxView) -> bool) -> Set<Seq<u8>> {
    Set::new(
        |h: Seq<u8>|
            exists|i: int|
                0 <= i < contents(q).len() && !keep(#[trigger] contents(q)[i]) && contents(q)[i].hash == h,
    )
}

/// An empty pool is consistent.
pub proof fn lemma_consistent_empty()
    ensures
        pool_consistent(Map::empty(), Map::empty()),
{
}

/// Filtering keeps hashes unique.
pub proof fn lemma_filter_unique(s: Seq<OrderedTxView>, keep: spec_fn(OrderedTxView) -> bool)
    requires
        hashes_unique(s),
    ensures
        hashes_unique(s.filter(keep)),
    decreases s.len(),
{
    reveal(Seq::filter);
    if s.len() > 0 {
        let s0 = s.drop_last();
        assert(hashes_unique(s0)) by {
            assert forall|i: int, j: int| 0 <= i < j < s0.len() implies #[trigger] s0[i].hash
                != #[trigger] s0[j].hash by {
                assert(s0[i] == s[i] && s0[j] == s[j]);
            }
        }
        lemma_filter_unique(s0, keep);
        if keep(s.last()) {
            let r0 = s0.filter(keep);
            let r = r0.push(s.last());
            assert forall|i: int, j: int| 0 <= i < j < r.len() implies #[trigger] r[i].hash
                != #[trigger] r[j].hash by {
                if j == r.len() - 1 {
                    assert(r[i] == r0[i]);
                    assert(r0.contains(r0[i]));
                    s0.lemma_filter_contains_rev(keep, r0[i]);
                    let k = choose|k: int| 0 <= k < s0.len() && s0[k] == r0[i];
                    assert(s[k] == s0[k]);
                    assert(s[k].hash != s[s.len() - 1].hash);
                } else {
                    assert(r[i] == r0[i] && r[j] == r0[j]);
                }
            }
            assert(s.filter(keep) == r);
        } else {
            assert(s.filter(keep) == s0.filter(keep));
        }
    }
}

/// Dropping queues that hold nothing keeps the pool consistent.
pub proof fn lemma_drop_empty_queues(
    txs: Map<Seq<u8>, OrderedTxView>,
    queues: Map<Seq<u8>, SenderQueueView>,
    empties: Set<Seq<u8>>,
)
    requires
        pool_consistent(txs, queues),
        forall|s: Seq<u8>| #[trigger] empties.contains(s) && queues.contains_key(s) ==> contents(queues[s]).len() == 0,
    ensures
        pool_consistent(txs, queues.remove_keys(empties)),
{
    let q2 = queues.remove_keys(empties);
    assert forall|h: Seq<u8>| #[trigger] txs.contains_key(h) implies {
        &&& txs[h].hash == h
        &&& q2.contains_key(txs[h].sender)
        &&& contents(q2[txs[h].sender]).contains(txs[h])
    } by {
        let s = txs[h].sender;
        if empties.contains(s) {
            assert(contents(queues[s]).contains(txs[h]));
        }
    }
    assert forall|s: Seq<u8>| #[trigger] q2.contains_key(s) implies queue_indexed(txs, s, q2[s]) by {
        assert(queues.contains_key(s));
    }
}

/// Dropping one queue that holds nothing keeps the pool consistent.
pub proof fn lemma_drop_empty_queue(
    txs: Map<Seq<u8>, OrderedTxView>,
    queues: Map<Seq<u8>, SenderQueueView>,
    s: Seq<u8>,
)
    requires
        pool_consistent(txs, queues),
        queues.contains_key(s) ==> contents(queues[s]).len() == 0,
    ensures
        pool_consistent(txs, queues.remove(s)),
{
    lemma_drop_empty_queues(txs, queues, set![s]);
    assert(queues.remove_keys(set![s]) =~= queues.remove(s));
}

/// Putting in place of a queue one with the same sender and the same
/// transactions in the same order keeps the pool consistent.
pub proof fn lemma_same_contents(
    txs: Map<Seq<u8>, OrderedTxView>,
    queues: Map<Seq<u8>, SenderQueueView>,
    s: Seq<u8>,
    q: SenderQueueView,
    q2: SenderQueueView,
)
    requires
        pool_consistent(txs, queues.insert(s, q)),
        q2.sender == q.sender,
        contents(q2) == contents(q),
    ensures
        pool_consistent(txs, queues.insert(s, q2)),
{
    let a = queues.insert(s, q);
    let b = queues.insert(s, q2);
    assert forall|h: Seq<u8>| #[trigger] txs.contains_key(h) implies {
        &&& txs[h].hash == h
        &&& b.contains_key(txs[h].sender)
        &&& contents(b[txs[h].sender]).contains(txs[h])
    } by {
        assert(a.contains_key(txs[h].sender));
    }
    assert forall|x: Seq<u8>| #[trigger] b.contains_key(x) implies queue_indexed(txs, x, b[x]) by {
        assert(a.contains_key(x));
        assert(queue_indexed(txs, x, a[x]));
    }
}

/// A queue shrinks to the entries that `keep` keeps: the index loses the
/// hashes of the entries let go, and the pool stays consistent.
pub proof fn lemma_shrink_queue(
    txs: Map<Seq<u8>, OrderedTxView>,
    queues: Map<Seq<u8>, SenderQueueView>,
    s: Seq<u8>,
    q2: SenderQueueView,
    keep: spec_fn(OrderedTxView) -> bool,
)
    requires
        pool_consistent(txs, queues),
        queues.contains_key(s),
        q2.sender == s,
        contents(q2) == contents(queues[s]).filter(keep),
    ensures
        pool_consistent(txs.remove_keys(gone_hashes(queues[s], keep)), queues.insert(s, q2)),
{
    broadcast use vstd::seq_lib::group_filter_ensures;

    let q = queues[s];
    let c = contents(q);
    let g = gone_hashes(q, keep);
    let t2 = txs.remove_keys(g);
    let b = queues.insert(s, q2);
    assert(queue_indexed(txs, s, q));
    // an entry of `q` kept by `keep` is not let go
    assert forall|i: int| 0 <= i < c.len() && keep(c[i]) implies !g.contains(#[trigger] c[i].hash) by {
        if g.contains(c[i].hash) {
            let k = choose|k: int| 0 <= k < c.len() && !keep(#[trigger] c[k]) && c[k].hash == c[i].hash;
            if k < i {
                assert(c[k].hash != c[i].hash);
            } else if k > i {
                assert(c[i].hash != c[k].hash);
            }
        }
    }
    assert forall|h: Seq<u8>| #[trigger] t2.contains_key(h) implies {
        &&& t2[h].hash == h
        &&& b.contains_key(t2[h].sender)
        &&& contents(b[t2[h].sender]).contains(t2[h])
    } by {
        let t = txs[h];
        assert(txs.contains_key(h));
        if t.sender == s {
            assert(c.contains(t));
            let k = choose|k: int| 0 <= k < c.len() && c[k] == t;
            if !keep(c[k]) {
                assert(g.contains(h));
            }
            c.lemma_filter_contains(keep, k);
        }
    }
    assert forall|x: Seq<u8>| #[trigger] b.contains_key(x) implies queue_indexed(t2, x, b[x]) by {
        if x == s {
            let c2 = contents(q2);
            lemma_filter_unique(c, keep);
            assert forall|i: int| 0 <= i < c2.len() implies {
                &&& (#[trigger] c2[i]).sender == s
                &&& t2.contains_key(c2[i].hash)
                &&& t2[c2[i].hash] == c2[i]
            } by {
                assert(c2.contains(c2[i]));
                c.lemma_filter_contains_rev(keep, c2[i]);
                let k = choose|k: int| 0 <= k < c.len() && c[k] == c2[i];
                assert(keep(c2[i]));
            }
        } else {
            let qx = queues[x];
            assert(queue_indexed(txs, x, qx));
            assert forall|i: int| 0 <= i < contents(qx).len() implies {
                &&& (#[trigger] contents(qx)[i]).sender == x
                &&& t2.contains_key(contents(qx)[i].hash)
                &&& t2[contents(qx)[i].hash] == contents(qx)[i]
            } by {
                let e = contents(qx)[i];
                if g.contains(e.hash) {
                    let k = choose|k: int| 0 <= k < c.len() && !keep(#[trigger] c[k]) && c[k].hash == e.hash;
                    assert(txs[c[k].hash] == c[k]);
                }
            }
        }
    }
}

/// A fresh transaction joins its sender's queue (an existing one, or a new
/// empty one): the index gains it and the pool stays consistent.
pub proof fn lemma_join_queue(
    txs: Map<Seq<u8>, OrderedTxView>,
    queues: Map<Seq<u8>, SenderQueueView>,
    q0: SenderQueueView,
    q1: SenderQueueView,
    tx: OrderedTxView,
    k: int,
)
    requires
        pool_consistent(txs, queues),
        queues.contains_key(tx.sender) ==> q0 == queues[tx.sender],
        !queues.contains_key(tx.sender) ==> contents(q0).len() == 0 && q0.sender == tx.sender,
        q1.sender == tx.sender,
        !txs.contains_key(tx.hash),
        0 <= k <= contents(q0).len(),
        contents(q1) == contents(q0).insert(k, tx),
    ensures
        pool_consistent(txs.insert(tx.hash, tx), queues.insert(tx.sender, q1)),
{
    let s = tx.sender;
    let t2 = txs.insert(tx.hash, tx);
    let b = queues.insert(s, q1);
    let c0 = contents(q0);
    let c1 = contents(q1);
    c0.insert_ensures(k, tx);
    if queues.contains_key(s) {
        assert(queue_indexed(txs, s, q0));
    }
    // every entry of q0 is indexed, so none carries the fresh hash
    assert forall|i: int| 0 <= i < c0.len() implies (#[trigger] c0[i]).hash != tx.hash && c0[i].sender == s
        && txs.contains_key(c0[i].hash) && txs[c0[i].hash] == c0[i] by {
        assert(queue_indexed(txs, s, q0));
    }
    assert forall|h: Seq<u8>| #[trigger] t2.contains_key(h) implies {
        &&& t2[h].hash == h
        &&& b.contains_key(t2[h].sender)
        &&& contents(b[t2[h].sender]).contains(t2[h])
    } by {
        if h == tx.hash {
            assert(c1[k] == tx);
        } else {
            let t = txs[h];
            assert(txs.contains_key(h));
            if t.sender == s {
                assert(c0.contains(t));
                let j = choose|j: int| 0 <= j < c0.len() && c0[j] == t;
                if j < k {
                    assert(c1[j] == t);
                } else {
                    assert(c1[j + 1] == t);
                }
            }
        }
    }
    assert forall|x: Seq<u8>| #[trigger] b.contains_key(x) implies queue_indexed(t2, x, b[x]) by {
        if x == s {
            assert forall|i: int, j: int| 0 <= i < j < c1.len() implies #[trigger] c1[i].hash
                != #[trigger] c1[j].hash by {
                if i < k {
                    if j < k {
                        assert(c0[i].hash != c0[j].hash);
                    } else if j > k {
                        assert(c1[j] == c0[j - 1]);
                        assert(c0[i].hash != c0[j - 1].hash);
                    }
                } else if i == k {
                    assert(c1[j] == c0[j - 1]);
                } else {
                    assert(c1[i] == c0[i - 1] && c1[j] == c0[j - 1]);
                    assert(c0[i - 1].hash != c0[j - 1].hash);
                }
            }
            assert forall|i: int| 0 <= i < c1.len() implies {
                &&& (#[trigger] c1[i]).sender == s
                &&& t2.contains_key(c1[i].hash)
                &&& t2[c1[i].hash] == c1[i]
            } by {
                if i < k {
                    assert(c1[i] == c0[i]);
                } else if i > k {
                    assert(c1[i] == c0[i - 1]);
                }
            }
        } else {
            let qx = queues[x];
            assert(queue_indexed(txs, x, qx));
            assert forall|i: int| 0 <= i < contents(qx).len() implies {
                &&& (#[trigger] contents(qx)[i]).sender == x
                &&& t2.contains_key(contents(qx)[i].hash)
                &&& t2[contents(qx)[i].hash] == contents(qx)[i]
            } by {
                assert(txs.contains_key(contents(qx)[i].hash));
            }
        }
    }
}

/// A fresh transaction takes the place of the pending transaction at
/// `idx` of its sender's queue: the index trades the old hash for the new
/// one, and the pool stays consistent.
pub proof fn lemma_replace_pending(
    txs: Map<Seq<u8>, OrderedTxView>,
    queues: Map<Seq<u8>, SenderQueueView>,
    tx: OrderedTxView,
    idx: int,
)
    requires
        pool_consistent(txs, queues),
        queues.contains_key(tx.sender),
        0 <= idx < queues[tx.sender].pending.len(),
        !txs.contains_key(tx.hash),
    ensures
        pool_consistent(
            txs.remove(queues[tx.sender].pending[idx].hash).insert(tx.hash, tx),
            queues.insert(
                tx.sender,
                SenderQueueView {
                    pending: queues[tx.sender].pending.update(idx, tx),
                    ..queues[tx.sender]
                },
            ),
        ),
{
    let s = tx.sender;
    let q0 = queues[s];
    let q1 = SenderQueueView { pending: q0.pending.update(idx, tx), ..q0 };
    let old = q0.pending[idx];
    let c0 = contents(q0);
    let c1 = contents(q1);
    assert(c1 == c0.update(idx, tx));
    assert(c0[idx] == old);
    assert(queue_indexed(txs, s, q0));
    let t2 = txs.remove(old.hash).insert(tx.hash, tx);
    let b = queues.insert(s, q1);
    assert forall|i: int| 0 <= i < c0.len() implies (#[trigger] c0[i]).hash != tx.hash by {
        assert(txs.contains_key(c0[i].hash));
    }
    assert forall|h: Seq<u8>| #[trigger] t2.contains_key(h) implies {
        &&& t2[h].hash == h
        &&& b.contains_key(t2[h].sender)
        &&& contents(b[t2[h].sender]).contains(t2[h])
    } by {
        if h == tx.hash {
            assert(c1[idx] == tx);
        } else {
            let t = txs[h];
            assert(txs.contains_key(h));
            if t.sender == s {
                assert(c0.contains(t));
                let j = choose|j: int| 0 <= j < c0.len() && c0[j] == t;
                if j == idx {
                    assert(h == old.hash);
                }
                assert(c1[j] == t);
            }
        }
    }
    assert forall|x: Seq<u8>| #[trigger] b.contains_key(x) implies queue_indexed(t2, x, b[x]) by {
        if x == s {
            assert forall|i: int, j: int| 0 <= i < j < c1.len() implies #[trigger] c1[i].hash
                != #[trigger] c1[j].hash by {
                if i != idx && j != idx {
                    assert(c0[i].hash != c0[j].hash);
                }
            }
            assert forall|i: int| 0 <= i < c1.len() implies {
                &&& (#[trigger] c1[i]).sender == s
                &&& t2.contains_key(c1[i].hash)
                &&& t2[c1[i].hash] == c1[i]
            } by {
                if i != idx {
                    assert(c1[i] == c0[i]);
                    if i < idx {
                        assert(c0[i].hash != c0[idx].hash);
                    } else {
                        assert(c0[idx].hash != c0[i].hash);
                    }
                }
            }
        } else {
            let qx = queues[x];
            assert(queue_indexed(txs, x, qx));
            assert forall|i: int| 0 <= i < contents(qx).len() implies {
                &&& (#[trigger] contents(qx)[i]).sender == x
                &&& t2.contains_key(contents(qx)[i].hash)
                &&& t2[contents(qx)[i].hash] == contents(qx)[i]
            } by {
                let e = contents(qx)[i];
                assert(txs.contains_key(e.hash));
                if e.hash == old.hash {
                    assert(txs[old.hash] == old);
                }
            }
        }
    }
}

/// A queue with nothing in it joins the pool under its sender: the pool
/// stays consistent.
pub proof fn lemma_add_empty_queue(
    txs: Map<Seq<u8>, OrderedTxView>,
    queues: Map<Seq<u8>, SenderQueueView>,
    q: SenderQueueView,
)
    requires
        pool_consistent(txs, queues),
        queues.contains_key(q.sender) ==> q == queues[q.sender],
        !queues.contains_key(q.sender) ==> contents(q).len() == 0,
    ensures
        pool_consistent(txs, queues.insert(q.sender, q)),
{
    if queues.contains_key(q.sender) {
        assert(queues.insert(q.sender, q) =~= queues);
    } else {
        let b = queues.insert(q.sender, q);
        assert forall|h: Seq<u8>| #[trigger] txs.contains_key(h) implies {
            &&& txs[h].hash == h
            &&& b.contains_key(txs[h].sender)
            &&& contents(b[txs[h].sender]).contains(txs[h])
        } by {
            assert(queues.contains_key(txs[h].sender));
        }
        assert forall|x: Seq<u8>| #[trigger] b.contains_key(x) implies queue_indexed(txs, x, b[x]) by {
            if x != q.sender {
                assert(queues.contains_key(x));
            }
        }
    }
}

/// Adding a transaction keeps the pool consistent, whichever way it ends.
pub proof fn lemma_add_consistent(
    txs: Map<Seq<u8>, OrderedTxView>,
    queues: Map<Seq<u8>, SenderQueueView>,
    max_txs_per_sender: usize,
    bump_percent: u8,
    tx: OrderedTxView,
)
    requires
        pool_consistent(txs, queues),
    ensures
        pool_consistent(
            add_spec(txs, queues, max_txs_per_sender, bump_percent, tx).0,
            add_spec(txs, queues, max_txs_per_sender, bump_percent, tx).1,
        ),
{
    if !txs.contains_key(tx.hash) {
        let q0 = queue_for(queues, tx);
        if queues.contains_key(tx.sender) {
            assert(queue_indexed(txs, tx.sender, queues[tx.sender]));
        }
        assert(q0.sender == tx.sender);
        if q0.pending.len() + q0.queued.len() >= max_txs_per_sender {
            lemma_add_empty_queue(txs, queues, q0);
        } else if hits_pending(q0, tx) {
            let idx = tx.nonce - q0.next_nonce;
            lemma_replace_pending(txs, queues, tx, idx);
        } else {
            let (q1, ret) = insert_spec(q0, tx);
            let c0 = contents(q0);
            if tx.nonce < q0.next_nonce {
                lemma_add_empty_queue(txs, queues, q0);
            } else if tx.nonce == expected_nonce(q0) {
                let p = q0.pending.push(tx);
                lemma_promote_keeps_order(q0.next_nonce, p, q0.queued);
                assert(p + q0.queued =~= c0.insert(q0.pending.len() as int, tx));
                lemma_join_queue(txs, queues, q0, q1, tx, q0.pending.len() as int);
            } else {
                let pos = queued_position(q0.queued, tx.nonce);
                lemma_first_at_least(q0.queued, tx.nonce, 0);
                assert(q0.pending + q0.queued.insert(pos, tx) =~= c0.insert(q0.pending.len() + pos, tx));
                lemma_join_queue(txs, queues, q0, q1, tx, q0.pending.len() + pos);
            }
        }
    }
}

/// Rebasing a queue keeps its sender and its transactions in order.
pub proof fn lemma_rebase_contents(q: SenderQueueView)
    ensures
        rebase(q).sender == q.sender,
        contents(rebase(q)) == contents(q),
{
    if q.pending.len() > 0 {
        let start = if q.pending[0].nonce > q.next_nonce {
            q.pending[0].nonce
        } else {
            q.next_nonce
        };
        lemma_run_end(q.pending, start as int, 0);
        let n = crate::txpool::pool::run_end(q.pending, start as int, 0);
        assert(q.pending.take(n) + (q.pending.skip(n) + q.queued) =~= q.pending + q.queued);
    }
}

/// Stripping a hash from a queue filters its transactions.
pub proof fn lemma_strip_contents(q: SenderQueueView, h: Seq<u8>)
    ensures
        strip_hash(q, h).sender == q.sender,
        contents(strip_hash(q, h)) == contents(q).filter(hash_not(h)),
{
    Seq::filter_distributes_over_add(q.pending, q.queued, hash_not(h));
}

/// When an indexed transaction with hash `h` sits in the queue of `s`, the
/// hashes that stripping `h` lets go are just `h`.
proof fn lemma_gone_is_hash(
    txs: Map<Seq<u8>, OrderedTxView>,
    queues: Map<Seq<u8>, SenderQueueView>,
    h: Seq<u8>,
)
    requires
        pool_consistent(txs, queues),
        txs.contains_key(h),
    ensures
        queues.contains_key(txs[h].sender),
        gone_hashes(queues[txs[h].sender], hash_not(h)) == set![h],
{
    let q = queues[txs[h].sender];
    let c = contents(q);
    assert(c.contains(txs[h]));
    let k = choose|k: int| 0 <= k < c.len() && c[k] == txs[h];
    assert(!hash_not(h)(c[k]));
    assert(gone_hashes(q, hash_not(h)).contains(h));
    assert(gone_hashes(q, hash_not(h)) =~= set![h]);
}

/// Pruning keeps the pool consistent, and so does dropping the queues it
/// left empty.
pub proof fn lemma_prune_consistent(
    txs: Map<Seq<u8>, OrderedTxView>,
    queues: Map<Seq<u8>, SenderQueueView>,
    ids: Seq<Seq<u8>>,
)
    requires
        pool_consistent(txs, queues),
    ensures
        pool_consistent(prune_spec(txs, queues, ids).0, prune_spec(txs, queues, ids).1),
        pool_consistent(
            prune_spec(txs, queues, ids).0,
            prune_spec(txs, queues, ids).1.remove_keys(
                empty_queues_among(prune_spec(txs, queues, ids).1, prune_spec(txs, queues, ids).2),
            ),
        ),
    decreases ids.len(),
{
    if ids.len() > 0 {
        let prev = ids.drop_last();
        lemma_prune_consistent(txs, queues, prev);
        let (t1, q1, a1) = prune_spec(txs, queues, prev);
        let h = ids.last();
        if t1.contains_key(h) {
            let s = t1[h].sender;
            lemma_gone_is_hash(t1, q1, h);
            assert(queue_indexed(t1, s, q1[s]));
            let st = strip_hash(q1[s], h);
            lemma_strip_contents(q1[s], h);
            lemma_shrink_queue(t1, q1, s, st, hash_not(h));
            assert(t1.remove_keys(set![h]) =~= t1.remove(h));
            lemma_rebase_contents(st);
            lemma_same_contents(t1.remove(h), q1, s, st, rebase(st));
        }
    }
    let (t, q, a) = prune_spec(txs, queues, ids);
    lemma_drop_empty_queues(t, q, empty_queues_among(q, a));
}

/// Removing an indexed transaction from the index and from its sender's
/// queue keeps the pool consistent.
pub proof fn lemma_remove_consistent(
    txs: Map<Seq<u8>, OrderedTxView>,
    queues: Map<Seq<u8>, SenderQueueView>,
    h: Seq<u8>,
)
    requires
        pool_consistent(txs, queues),
        txs.contains_key(h),
    ensures
        pool_consistent(txs.remove(h), remove_from_queues(queues, txs[h].sender, h)),
{
    let s = txs[h].sender;
    lemma_gone_is_hash(txs, queues, h);
    assert(queue_indexed(txs, s, queues[s]));
    let st = strip_hash(queues[s], h);
    lemma_strip_contents(queues[s], h);
    lemma_shrink_queue(txs, queues, s, st, hash_not(h));
    assert(txs.remove_keys(set![h]) =~= txs.remove(h));
    if st.pending.len() == 0 && st.queued.len() == 0 {
        lemma_drop_empty_queue(txs.remove(h), queues.insert(s, st), s);
        assert(queues.insert(s, st).remove(s) =~= queues.remove(s));
    }
}

/// Removing the confirmed transactions of `s` keeps the pool consistent; no
/// indexed transaction of `s` is left at or below the confirmed nonce, and
/// the transactions of other senders stay as they were.
pub proof fn lemma_remove_confirmed_consistent(
    txs: Map<Seq<u8>, OrderedTxView>,
    queues: Map<Seq<u8>, SenderQueueView>,
    s: Seq<u8>,
    confirmed: u64,
)
    requires
        pool_consistent(txs, queues),
        queues.contains_key(s),
    ensures
        ({
            let t2 = txs.remove_keys(confirmed_hashes(queues[s], confirmed));
            let q2 = put_or_drop(queues, remove_confirmed_spec(queues[s], confirmed));
            &&& pool_consistent(t2, q2)
            &&& forall|h: Seq<u8>|
                #[trigger] t2.contains_key(h) && t2[h].sender == s ==> t2[h].nonce > confirmed
            &&& forall|h: Seq<u8>|
                #[trigger] txs.contains_key(h) && txs[h].sender != s ==> t2.contains_key(h) && t2[h] == txs[h]
        }),
{
    let q = queues[s];
    let c = contents(q);
    let keep = nonce_above(confirmed);
    let r = remove_confirmed_spec(q, confirmed);
    assert(queue_indexed(txs, s, q));
    Seq::filter_distributes_over_add(q.pending, q.queued, keep);
    assert(confirmed_hashes(q, confirmed) =~= gone_hashes(q, keep));
    lemma_shrink_queue(txs, queues, s, r, keep);
    let t2 = txs.remove_keys(confirmed_hashes(q, confirmed));
    if r.pending.len() == 0 && r.queued.len() == 0 {
        lemma_drop_empty_queue(t2, queues.insert(s, r), s);
        assert(queues.insert(s, r).remove(s) =~= queues.remove(s));
    }
    assert forall|h: Seq<u8>| #[trigger] t2.contains_key(h) && t2[h].sender == s implies t2[h].nonce
        > confirmed by {
        let t = txs[h];
        assert(txs.contains_key(h));
        assert(c.contains(t));
        let k = choose|k: int| 0 <= k < c.len() && c[k] == t;
        if t.nonce <= confirmed {
            assert(gone_hashes(q, keep).contains(h));
        }
    }
    assert forall|h: Seq<u8>| #[trigger] txs.contains_key(h) && txs[h].sender != s implies t2.contains_key(h)
        && t2[h] == txs[h] by {
        if gone_hashes(q, keep).contains(h) {
            let k = choose|k: int| 0 <= k < c.len() && !keep(#[trigger] c[k]) && c[k].hash == h;
            assert(txs[c[k].hash] == c[k]);
        }
    }
}

/// The hashes of a queue's transactions.
pub open spec fn hash_set(q: SenderQueueView) -> Set<Seq<u8>> {
    contents(q).map_values(|e: OrderedTxView| e.hash).to_set()
}

/// The hashes of the transactions of a list of queues.
pub open spec fn all_hashes(l: Seq<SenderQueueView>) -> Set<Seq<u8>>
    decreases l.len(),
{
    if l.len() == 0 {
        Set::empty()
    } else {
        all_hashes(l.drop_last()) + hash_set(l.last())
    }
}

/// A queue whose hashes are unique has as many hashes as transactions.
proof fn lemma_hash_set_len(q: SenderQueueView)
    requires
        hashes_unique(contents(q)),
    ensures
        hash_set(q).finite(),
        hash_set(q).len() == contents(q).len(),
{
    let hs = contents(q).map_values(|e: OrderedTxView| e.hash);
    assert(hs.no_duplicates()) by {
        assert forall|i: int, j: int| 0 <= i < hs.len() && 0 <= j < hs.len() && i != j implies hs[i]
            != hs[j] by {
            if i < j {
                assert(contents(q)[i].hash != contents(q)[j].hash);
            } else {
                assert(contents(q)[j].hash != contents(q)[i].hash);
            }
        }
    }
    hs.unique_seq_to_set();
    vstd::seq_lib::seq_to_set_is_finite(hs);
}

/// A hash of a list of queues is the hash of a transaction of one of them.
proof fn lemma_all_hashes_member(l: Seq<SenderQueueView>, h: Seq<u8>)
    requires
        all_hashes(l).contains(h),
    ensures
        exists|i: int, k: int|
            0 <= i < l.len() && 0 <= k < contents(l[i]).len() && (#[trigger] contents(l[i])[k]).hash == h,
    decreases l.len(),
{
    let l0 = l.drop_last();
    if all_hashes(l0).contains(h) {
        lemma_all_hashes_member(l0, h);
        let (i, k) = choose|i: int, k: int|
            0 <= i < l0.len() && 0 <= k < contents(l0[i]).len() && (#[trigger] contents(l0[i])[k]).hash == h;
        assert(l[i] == l0[i]);
    } else {
        let hs = contents(l.last()).map_values(|e: OrderedTxView| e.hash);
        assert(hs.contains(h));
        let k = choose|k: int| 0 <= k < hs.len() && hs[k] == h;
        assert(contents(l[l.len() - 1])[k].hash == h);
    }
}

/// Over queues of distinct senders, each holding its own indexed
/// transactions once, the hashes number as many as the transactions.
proof fn lemma_all_hashes_len(txs: Map<Seq<u8>, OrderedTxView>, l: Seq<SenderQueueView>)
    requires
        keys_distinct(l, queue_key()),
        forall|i: int| 0 <= i < l.len() ==> queue_indexed(txs, (#[trigger] l[i]).sender, l[i]),
    ensures
        all_hashes(l).finite(),
        all_hashes(l).len() == total_pending(l) + total_queued(l),
    decreases l.len(),
{
    if l.len() > 0 {
        let l0 = l.drop_last();
        let last = l.last();
        crate::keyed::lemma_keys_distinct_drop_last(l, queue_key());
        assert forall|i: int| 0 <= i < l0.len() implies queue_indexed(txs, (#[trigger] l0[i]).sender, l0[i]) by {
            assert(l0[i] == l[i]);
        }
        lemma_all_hashes_len(txs, l0);
        assert(queue_indexed(txs, last.sender, last));
        lemma_hash_set_len(last);
        assert(all_hashes(l0).disjoint(hash_set(last))) by {
            assert forall|h: Seq<u8>| all_hashes(l0).contains(h) implies !hash_set(last).contains(h) by {
                lemma_all_hashes_member(l0, h);
                let (i, k) = choose|i: int, k: int|
                    0 <= i < l0.len() && 0 <= k < contents(l0[i]).len() && (#[trigger] contents(
                        l0[i],
                    )[k]).hash == h;
                assert(l0[i] == l[i]);
                assert(queue_indexed(txs, l[i].sender, l[i]));
                if hash_set(last).contains(h) {
                    let hs = contents(last).map_values(|e: OrderedTxView| e.hash);
                    let m = choose|m: int| 0 <= m < hs.len() && hs[m] == h;
                    assert(contents(last)[m].hash == h);
                    assert(txs[h] == contents(last)[m]);
                    assert(txs[h] == contents(l[i])[k]);
                    assert(queue_key()(l[i]) != queue_key()(l[l.len() - 1]));
                }
            }
        }
        vstd::set_lib::lemma_set_disjoint_lens(all_hashes(l0), hash_set(last));
    }
}

/// With the index and the queues consistent, the index holds as many
/// transactions as the queues together.
pub proof fn lemma_index_len(txs: Map<Seq<u8>, OrderedTxView>, l: Seq<SenderQueueView>)
    requires
        keys_distinct(l, queue_key()),
        pool_consistent(txs, keyed_map(l, queue_key())),
    ensures
        txs.dom() == all_hashes(l),
        txs.len() == total_pending(l) + total_queued(l),
{
    let queues = keyed_map(l, queue_key());
    assert forall|i: int| 0 <= i < l.len() implies queue_indexed(txs, (#[trigger] l[i]).sender, l[i]) by {
        lemma_keyed_map_index(l, queue_key(), i);
    }
    lemma_all_hashes_len(txs, l);
    assert forall|h: Seq<u8>| txs.dom().contains(h) <==> all_hashes(l).contains(h) by {
        if txs.contains_key(h) {
            let s = txs[h].sender;
            lemma_keyed_map_dom(l, queue_key(), s);
            let i = choose|i: int| 0 <= i < l.len() && queue_key()(l[i]) == s;
            lemma_keyed_map_index(l, queue_key(), i);
            assert(contents(l[i]).contains(txs[h]));
            let k = choose|k: int| 0 <= k < contents(l[i]).len() && contents(l[i])[k] == txs[h];
            lemma_all_hashes_holds(l, i, k);
        }
        if all_hashes(l).contains(h) {
            lemma_all_hashes_member(l, h);
            let (i, k) = choose|i: int, k: int|
                0 <= i < l.len() && 0 <= k < contents(l[i]).len() && (#[trigger] contents(l[i])[k]).hash == h;
            assert(queue_indexed(txs, l[i].sender, l[i]));
        }
    }
    assert(txs.dom() =~= all_hashes(l));
}

/// The hash of every transaction of a list of queues is among its hashes.
proof fn lemma_all_hashes_holds(l: Seq<SenderQueueView>, i: int, k: int)
    requires
        0 <= i < l.len(),
        0 <= k < contents(l[i]).len(),
    ensures
        all_hashes(l).contains(contents(l[i])[k].hash),
    decreases l.len(),
{
    if i < l.len() - 1 {
        assert(l.drop_last()[i] == l[i]);
        lemma_all_hashes_holds(l.drop_last(), i, k);
    } else {
        let hs = contents(l.last()).map_values(|e: OrderedTxView| e.hash);
        assert(hs[k] == contents(l[i])[k].hash);
        assert(hs.contains(hs[k]));
    }
}

} // verus!
