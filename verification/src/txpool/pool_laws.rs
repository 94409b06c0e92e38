//! What the pool's operations promise together: a transaction that was
//! added can be found again by its hash, a removed one cannot, and pruning
//! drops exactly the named transactions.

use vstd::prelude::*;

use crate::txpool::ordering::{OrderedTxView, SenderQueueView};
use crate::txpool::pool::{add_spec, prune_spec};

verus! {

/// A transaction that `add` reports as added is then held under its hash.
pub proof fn lemma_added_is_held(
    txs: Map<Seq<u8>, OrderedTxView>,
    queues: Map<Seq<u8>, SenderQueueView>,
    max_txs_per_sender: usize,
    bump_percent: u8,
    tx: OrderedTxView,
)
    requires
        add_spec(txs, queues, max_txs_per_sender, bump_percent, tx).2 is Added,
    ensures
        add_spec(txs, queues, max_txs_per_sender, bump_percent, tx).0.contains_key(tx.hash),
        add_spec(txs, queues, max_txs_per_sender, bump_percent, tx).0[tx.hash] == tx,
{
}

/// A transaction that `add` refuses leaves the index as it was; one that
/// it adds keeps every other transaction except the one it replaces.
pub proof fn lemma_add_keeps_others(
    txs: Map<Seq<u8>, OrderedTxView>,
    queues: Map<Seq<u8>, SenderQueueView>,
    max_txs_per_sender: usize,
    bump_percent: u8,
    tx: OrderedTxView,
)
    ensures
        !(add_spec(txs, queues, max_txs_per_sender, bump_percent, tx).2 is Added) ==> add_spec(
            txs,
            queues,
            max_txs_per_sender,
            bump_percent,
            tx,
        ).0 == txs,
        add_spec(txs, queues, max_txs_per_sender, bump_percent, tx).2 is Added ==> forall|h: Seq<u8>|
            #[trigger] txs.contains_key(h) && h != tx.hash && add_spec(
                txs,
                queues,
                max_txs_per_sender,
                bump_percent,
                tx,
            ).0.contains_key(h) ==> add_spec(txs, queues, max_txs_per_sender, bump_percent, tx).0[h] == txs[h],
        add_spec(txs, queues, max_txs_per_sender, bump_percent, tx).2 is Added ==> forall|h: Seq<u8>|
            #[trigger] add_spec(txs, queues, max_txs_per_sender, bump_percent, tx).0.contains_key(h) ==> h == tx.hash
                || txs.contains_key(h),
{
}

/// After pruning, none of the named transactions is held, and every other
/// transaction is held as before.
pub proof fn lemma_prune_drops_exactly(
    txs: Map<Seq<u8>, OrderedTxView>,
    queues: Map<Seq<u8>, SenderQueueView>,
    ids: Seq<Seq<u8>>,
)
    ensures
        forall|i: int| 0 <= i < ids.len() ==> !prune_spec(txs, queues, ids).0.contains_key(#[trigger] ids[i]),
        forall|h: Seq<u8>|
            !ids.contains(h) && txs.contains_key(h) ==> #[trigger] prune_spec(txs, queues, ids).0.contains_key(h)
                && prune_spec(txs, queues, ids).0[h] == txs[h],
        forall|h: Seq<u8>| #[trigger] prune_spec(txs, queues, ids).0.contains_key(h) ==> txs.contains_key(h),
    decreases ids.len(),
{
    if ids.len() > 0 {
        let prev = ids.drop_last();
        lemma_prune_drops_exactly(txs, queues, prev);
        let t1 = prune_spec(txs, queues, prev).0;
        let last = ids.last();
        assert(prev =~= ids.drop_last());
        assert(prune_spec(txs, queues, ids).0 == if t1.contains_key(last) {
            t1.remove(last)
        } else {
            t1
        });
        assert forall|i: int| 0 <= i < ids.len() implies !prune_spec(txs, queues, ids).0.contains_key(
            #[trigger] ids[i],
        ) by {
            if i < ids.len() - 1 {
                assert(prev[i] == ids[i]);
            }
        }
        assert forall|h: Seq<u8>| !ids.contains(h) && txs.contains_key(h) implies #[trigger] prune_spec(
            txs,
            queues,
            ids,
        ).0.contains_key(h) && prune_spec(txs, queues, ids).0[h] == txs[h] by {
            if prev.contains(h) {
                let j = choose|j: int| 0 <= j < prev.len() && prev[j] == h;
                assert(ids[j] == h);
            }
            assert(h != ids.last());
        }
    }
}

/// Pruning drops from the index exactly the named hashes it holds: the
/// index afterwards is the old one without the named keys, and its size
/// falls by the number of named hashes the pool held.
pub proof fn lemma_prune_len(
    txs: Map<Seq<u8>, OrderedTxView>,
    queues: Map<Seq<u8>, SenderQueueView>,
    ids: Seq<Seq<u8>>,
)
    requires
        txs.dom().finite(),
    ensures
        prune_spec(txs, queues, ids).0 == txs.remove_keys(ids.to_set()),
        prune_spec(txs, queues, ids).0.len() == txs.len() - txs.dom().intersect(ids.to_set()).len(),
    decreases ids.len(),
{
    broadcast use vstd::set::group_set_axioms;

    if ids.len() == 0 {
        assert(ids.to_set() =~= Set::<Seq<u8>>::empty());
        assert(txs.remove_keys(ids.to_set()) =~= txs);
        assert(txs.dom().intersect(ids.to_set()) =~= Set::<Seq<u8>>::empty());
    } else {
        let prev = ids.drop_last();
        let h = ids.last();
        lemma_prune_len(txs, queues, prev);
        assert forall|x: Seq<u8>| ids.contains(x) <==> prev.contains(x) || x == h by {
            if ids.contains(x) {
                let k = choose|k: int| 0 <= k < ids.len() && ids[k] == x;
                if k < ids.len() - 1 {
                    assert(prev[k] == x);
                }
            }
            if prev.contains(x) {
                let k = choose|k: int| 0 <= k < prev.len() && prev[k] == x;
                assert(ids[k] == x);
            }
            if x == h {
                assert(ids[ids.len() - 1] == x);
            }
        }
        assert(ids.to_set() =~= prev.to_set().insert(h));
        let t1 = txs.remove_keys(prev.to_set());
        let i0 = txs.dom().intersect(prev.to_set());
        assert(t1.dom() =~= txs.dom().difference(prev.to_set()));
        assert(prune_spec(txs, queues, ids).0 == if t1.contains_key(h) {
            t1.remove(h)
        } else {
            t1
        });
        if t1.contains_key(h) {
            assert(t1.remove(h) =~= txs.remove_keys(ids.to_set()));
            assert(txs.dom().intersect(ids.to_set()) =~= i0.insert(h));
            assert(!i0.contains(h));
            assert(t1.remove(h).dom() =~= t1.dom().remove(h));
        } else {
            assert(t1 =~= txs.remove_keys(ids.to_set()));
            assert(txs.dom().intersect(ids.to_set()) =~= i0);
        }
    }
}

} // verus!
