//! The transaction pool: transactions indexed by hash and grouped into
//! per-sender nonce queues.

use vstd::multiset::Multiset;
use vstd::prelude::*;

use crate::bytes::{eq_bytes20, eq_bytes32};
use crate::keyed::{
    keyed_map, keys_distinct, lemma_keyed_map_dom, lemma_keyed_map_index, lemma_keyed_map_push,
    lemma_keyed_map_remove, lemma_keyed_map_update,
};
use crate::txpool::config::PoolConfig;
use crate::txpool::consistency::{
    lemma_add_consistent, lemma_consistent_empty, lemma_index_len, lemma_prune_consistent, lemma_remove_confirmed_consistent,
    lemma_remove_consistent, pool_consistent,
};
use crate::txpool::envelope::{decode_transaction, decoded_matches, decodes_as_envelope, keccak256, keccak256_digest, DecodedTx};
use crate::txpool::error::TxPoolError;
use crate::txpool::validator::{effective_gas_price, recover_sender, recovered_sender, spec_effective_gas_price};
use crate::txpool::priority::{sort_by_priority, sorted_by_priority};
use crate::txpool::ordering::{
    insert_spec, lemma_view_seq_push, lemma_view_seq_remove, remove_confirmed_spec, view_seq,
    OrderedTransaction, OrderedTxView, SenderQueue, SenderQueueView,
};

verus! {

/// The key under which a transaction is indexed: its hash.
pub open spec fn tx_key() -> spec_fn(OrderedTxView) -> Seq<u8> {
    |t: OrderedTxView| t.hash
}

/// The key under which a queue is indexed: its sender.
pub open spec fn queue_key() -> spec_fn(SenderQueueView) -> Seq<u8> {
    |q: SenderQueueView| q.sender
}

/// The models of a sequence of queues.
pub open spec fn queue_seq(s: Seq<SenderQueue>) -> Seq<SenderQueueView> {
    s.map_values(|q: SenderQueue| q@)
}

/// Number of pending transactions over a list of queues.
pub open spec fn total_pending(qs: Seq<SenderQueueView>) -> int
    decreases qs.len(),
{
    if qs.len() == 0 {
        0
    } else {
        total_pending(qs.drop_last()) + qs.last().pending.len()
    }
}

/// Number of queued transactions over a list of queues.
pub open spec fn total_queued(qs: Seq<SenderQueueView>) -> int
    decreases qs.len(),
{
    if qs.len() == 0 {
        0
    } else {
        total_queued(qs.drop_last()) + qs.last().queued.len()
    }
}

/// The queues of a map as (sender, queue) entries.
pub open spec fn queue_entries(queues: Map<Seq<u8>, SenderQueueView>) -> Set<(Seq<u8>, SenderQueueView)> {
    Set::new(|e: (Seq<u8>, SenderQueueView)| queues.contains_key(e.0) && queues[e.0] == e.1)
}

/// Adds an entry's number of pending transactions to a running total.
pub open spec fn add_pending() -> spec_fn(int, (Seq<u8>, SenderQueueView)) -> int {
    |acc: int, e: (Seq<u8>, SenderQueueView)| acc + e.1.pending.len()
}

/// Adds an entry's number of queued transactions to a running total.
pub open spec fn add_queued() -> spec_fn(int, (Seq<u8>, SenderQueueView)) -> int {
    |acc: int, e: (Seq<u8>, SenderQueueView)| acc + e.1.queued.len()
}

/// Number of pending transactions over all queues of a map.
pub open spec fn pending_in(queues: Map<Seq<u8>, SenderQueueView>) -> int {
    queue_entries(queues).fold(0int, add_pending())
}

/// Number of queued transactions over all queues of a map.
pub open spec fn queued_in(queues: Map<Seq<u8>, SenderQueueView>) -> int {
    queue_entries(queues).fold(0int, add_queued())
}

/// Totals over a list of queues with distinct senders are the totals over
/// the map of those queues.
proof fn lemma_totals_of_list(l: Seq<SenderQueueView>)
    requires
        keys_distinct(l, queue_key()),
    ensures
        queue_entries(keyed_map(l, queue_key())).finite(),
        pending_in(keyed_map(l, queue_key())) == total_pending(l),
        queued_in(keyed_map(l, queue_key())) == total_queued(l),
    decreases l.len(),
{
    let m = keyed_map(l, queue_key());
    if l.len() == 0 {
        assert(queue_entries(m) =~= Set::<(Seq<u8>, SenderQueueView)>::empty());
        vstd::set::fold::lemma_fold_empty(0int, add_pending());
        vstd::set::fold::lemma_fold_empty(0int, add_queued());
    } else {
        let l0 = l.drop_last();
        let x = l.last();
        crate::keyed::lemma_keys_distinct_drop_last(l, queue_key());
        lemma_totals_of_list(l0);
        let m0 = keyed_map(l0, queue_key());
        lemma_keyed_map_dom(l0, queue_key(), x.sender);
        assert(!m0.contains_key(x.sender)) by {
            if m0.contains_key(x.sender) {
                let i = choose|i: int| 0 <= i < l0.len() && queue_key()(l0[i]) == x.sender;
                assert(l[i] == l0[i]);
                assert(queue_key()(l[i]) != queue_key()(l[l.len() - 1]));
            }
        }
        assert(l0.push(x) =~= l);
        assert(m == m0.insert(x.sender, x));
        assert(queue_entries(m) =~= queue_entries(m0).insert((x.sender, x)));
        assert(!queue_entries(m0).contains((x.sender, x)));
        assert(vstd::set::fold::is_fun_commutative(add_pending()));
        assert(vstd::set::fold::is_fun_commutative(add_queued()));
        vstd::set::fold::lemma_fold_insert(queue_entries(m0), 0int, add_pending(), (x.sender, x));
        vstd::set::fold::lemma_fold_insert(queue_entries(m0), 0int, add_queued(), (x.sender, x));
    }
}

/// A count as a `usize`, saturating at `usize::MAX`.
pub open spec fn capped(x: int) -> usize {
    if x > usize::MAX { usize::MAX } else if x < 0 { 0 } else { x as usize }
}

/// The queue that an incoming transaction joins: its sender's, or a fresh
/// one that expects the transaction's own nonce next.
pub open spec fn queue_for(queues: Map<Seq<u8>, SenderQueueView>, tx: OrderedTxView) -> SenderQueueView {
    if queues.contains_key(tx.sender) {
        queues[tx.sender]
    } else {
        SenderQueueView {
            sender: tx.sender,
            next_nonce: tx.nonce,
            pending: Seq::empty(),
            queued: Seq::empty(),
        }
    }
}

/// Every transaction whose hash differs from `hash`.
pub open spec fn hash_not(hash: Seq<u8>) -> spec_fn(OrderedTxView) -> bool {
    |t: OrderedTxView| t.hash != hash
}

/// A queue without the transaction with the given hash.
pub open spec fn strip_hash(q: SenderQueueView, hash: Seq<u8>) -> SenderQueueView {
    SenderQueueView {
        pending: q.pending.filter(hash_not(hash)),
        queued: q.queued.filter(hash_not(hash)),
        ..q
    }
}

/// The end of the run of pending transactions, from index `i` on, whose
/// nonces continue `start` consecutively.
pub open spec fn run_end(p: Seq<OrderedTxView>, start: int, i: int) -> int
    decreases p.len() - i,
{
    if 0 <= i < p.len() && p[i].nonce == start + i {
        run_end(p, start, i + 1)
    } else {
        i
    }
}

/// Pending nonces run consecutively from the queue's next nonce.
pub open spec fn pending_consecutive(q: SenderQueueView) -> bool {
    forall|i: int| 0 <= i < q.pending.len() ==> #[trigger] q.pending[i].nonce == q.next_nonce + i
}

/// A queue brought back to shape after transactions left it: the next
/// nonce moves up to the first pending transaction's (those below it were
/// taken), the pending transactions that still run consecutively from there
/// stay pending, and the rest, behind a gap, go to the front of the queued
/// list.
pub open spec fn rebase(q: SenderQueueView) -> SenderQueueView {
    if q.pending.len() == 0 {
        q
    } else {
        let start = if q.pending[0].nonce > q.next_nonce {
            q.pending[0].nonce
        } else {
            q.next_nonce
        };
        let n = run_end(q.pending, start as int, 0);
        SenderQueueView {
            next_nonce: start,
            pending: q.pending.take(n),
            queued: q.pending.skip(n) + q.queued,
            ..q
        }
    }
}

/// The run from `i` on ends within the list, and every nonce before its end
/// continues `start`.
pub proof fn lemma_run_end(p: Seq<OrderedTxView>, start: int, i: int)
    requires
        0 <= i <= p.len(),
        forall|j: int| 0 <= j < i ==> #[trigger] p[j].nonce == start + j,
    ensures
        i <= run_end(p, start, i) <= p.len(),
        forall|j: int| 0 <= j < run_end(p, start, i) ==> #[trigger] p[j].nonce == start + j,
    decreases p.len() - i,
{
    if i < p.len() && p[i].nonce == start + i {
        lemma_run_end(p, start, i + 1);
    }
}

/// A rebased queue holds consecutive pending nonces.
pub proof fn lemma_rebase_consecutive(q: SenderQueueView)
    ensures
        pending_consecutive(rebase(q)),
        rebase(q).sender == q.sender,
{
    if q.pending.len() > 0 {
        let start = if q.pending[0].nonce > q.next_nonce {
            q.pending[0].nonce
        } else {
            q.next_nonce
        };
        lemma_run_end(q.pending, start as int, 0);
    }
}

/// The queue map after a queue has been changed to `q`: empty queues are
/// dropped.
pub open spec fn put_or_drop(queues: Map<Seq<u8>, SenderQueueView>, q: SenderQueueView) -> Map<
    Seq<u8>,
    SenderQueueView,
> {
    if q.pending.len() == 0 && q.queued.len() == 0 {
        queues.remove(q.sender)
    } else {
        queues.insert(q.sender, q)
    }
}

/// How an attempt to add a transaction ended.
pub enum AddOutcome {
    /// The transaction was added (possibly replacing another).
    Added,
    /// Its hash is already known, or its sender's queue turned it away.
    Duplicate,
    /// Its sender already holds the maximum number of transactions.
    SenderFull,
    /// It would replace a pending transaction without outbidding it by the
    /// configured bump.
    Underpriced,
}

/// Whether a price of `new` outbids one of `old` by at least `bump_percent`
/// percent: `new * 100 >= old * (100 + bump_percent)`.
pub open spec fn outbids(new: u128, old: u128, bump_percent: u8) -> bool {
    new * 100 >= old * (100 + bump_percent)
}

/// `100 * x` reaches `n` exactly when `x` reaches `n` divided by 100,
/// rounded up.
proof fn lemma_ceil_hundredth(x: int, n: int)
    requires
        n >= 0,
    ensures
        (100 * x >= n) == (x >= (n + 99) / 100),
{
    let e = (n + 99) / 100;
    let m = (n + 99) % 100;
    vstd::arithmetic::div_mod::lemma_fundamental_div_mod(n + 99, 100);
    assert(n + 99 == 100 * e + m && 0 <= m < 100);
    if x >= e {
        assert(100 * x >= 100 * e) by (nonlinear_arith)
            requires
                x >= e,
        ;
    } else {
        assert(100 * x <= 100 * e - 100) by (nonlinear_arith)
            requires
                x <= e - 1,
        ;
    }
}

/// The bump rule restated without products that overflow: with the old
/// price split as `100 * a + b`, the new price outbids it exactly when the
/// difference reaches `a * bump` plus `b * bump / 100` rounded up.
proof fn lemma_outbids_split(new: u128, old: u128, bump: u8, a: int, b: int)
    requires
        new >= old,
        a == old / 100,
        b == old % 100,
    ensures
        outbids(new, old, bump) == (new - old >= a * bump + (b * bump + 99) / 100),
{
    vstd::arithmetic::div_mod::lemma_fundamental_div_mod(old as int, 100);
    assert(old == 100 * a + b);
    assert(old * (100 + bump) == 100 * old + 100 * (a * bump) + b * bump) by (nonlinear_arith)
        requires
            old == 100 * a + b,
    ;
    assert(b * bump >= 0) by (nonlinear_arith)
        requires
            0 <= b,
    ;
    lemma_ceil_hundredth(new - old - a * bump, b * bump);
}

/// Whether a price of `new` outbids one of `old` by at least `bump_percent`
/// percent, computed without overflow.
pub fn outbids_price(new: u128, old: u128, bump_percent: u8) -> (r: bool)
    ensures
        r == outbids(new, old, bump_percent),
{
    if new < old {
        assert(!outbids(new, old, bump_percent)) by (nonlinear_arith)
            requires
                new < old,
        ;
        return false;
    }
    let d = new - old;
    let a = old / 100;
    let b = old % 100;
    let k = bump_percent as u128;
    assert(b * k < 25600) by (nonlinear_arith)
        requires
            b < 100,
            k < 256,
    ;
    let e = (b * k + 99) / 100;
    proof {
        lemma_outbids_split(new, old, bump_percent, a as int, b as int);
    }
    match a.checked_mul(k) {
        None => false,
        Some(ak) => match ak.checked_add(e) {
            None => false,
            Some(need) => d >= need,
        },
    }
}

/// Whether `tx` carries the nonce of one of the pending transactions of `q`.
pub open spec fn hits_pending(q: SenderQueueView, tx: OrderedTxView) -> bool {
    q.next_nonce <= tx.nonce < q.next_nonce + q.pending.len()
}

/// The pool's transactions and queues after adding `tx`, and how it ended:
/// a known hash is a duplicate; a full sender is refused; a transaction
/// with the nonce of a pending one replaces it when it outbids it by
/// `bump_percent` and is underpriced otherwise; any other goes to its
/// sender's queue.
pub open spec fn add_spec(
    txs: Map<Seq<u8>, OrderedTxView>,
    queues: Map<Seq<u8>, SenderQueueView>,
    max_txs_per_sender: usize,
    bump_percent: u8,
    tx: OrderedTxView,
) -> (Map<Seq<u8>, OrderedTxView>, Map<Seq<u8>, SenderQueueView>, AddOutcome) {
    if txs.contains_key(tx.hash) {
        (txs, queues, AddOutcome::Duplicate)
    } else {
        let q0 = queue_for(queues, tx);
        if q0.pending.len() + q0.queued.len() >= max_txs_per_sender {
            (txs, queues.insert(tx.sender, q0), AddOutcome::SenderFull)
        } else if hits_pending(q0, tx) {
            let idx = tx.nonce - q0.next_nonce;
            let old = q0.pending[idx];
            if outbids(tx.effective_gas_price, old.effective_gas_price, bump_percent) {
                (
                    txs.remove(old.hash).insert(tx.hash, tx),
                    queues.insert(tx.sender, SenderQueueView { pending: q0.pending.update(idx, tx), ..q0 }),
                    AddOutcome::Added,
                )
            } else {
                (txs, queues, AddOutcome::Underpriced)
            }
        } else {
            let (q1, ret) = insert_spec(q0, tx);
            let queues1 = queues.insert(tx.sender, q1);
            match ret {
                Some(x) => if x.hash == tx.hash {
                    (txs, queues1, AddOutcome::Duplicate)
                } else {
                    (txs.remove(x.hash).insert(tx.hash, tx), queues1, AddOutcome::Added)
                },
                None => (txs.insert(tx.hash, tx), queues1, AddOutcome::Added),
            }
        }
    }
}

/// The outcome that a result of `add` reports.
pub open spec fn add_outcome_of(r: Result<(), TxPoolError>) -> AddOutcome {
    match r {
        Ok(()) => AddOutcome::Added,
        Err(TxPoolError::SenderFull(_)) => AddOutcome::SenderFull,
        Err(TxPoolError::ReplacementUnderpriced) => AddOutcome::Underpriced,
        Err(_) => AddOutcome::Duplicate,
    }
}

/// The queue map after the transaction with `hash`, sent by `sender`, leaves
/// the pool.
pub open spec fn remove_from_queues(queues: Map<Seq<u8>, SenderQueueView>, sender: Seq<u8>, hash: Seq<u8>) -> Map<
    Seq<u8>,
    SenderQueueView,
> {
    if queues.contains_key(sender) {
        put_or_drop(queues, strip_hash(queues[sender], hash))
    } else {
        queues
    }
}

/// Hashes of the transactions of `q`, pending and queued alike, that the
/// confirmation of nonce `confirmed` retires.
pub open spec fn confirmed_hashes(q: SenderQueueView, confirmed: u64) -> Set<Seq<u8>> {
    Set::new(
        |h: Seq<u8>|
            exists|k: int|
                0 <= k < (q.pending + q.queued).len() && (#[trigger] (q.pending + q.queued)[k]).nonce
                    <= confirmed && (q.pending + q.queued)[k].hash == h,
    )
}

/// Hashes retired by the first `n` pending transactions of `p`.
spec fn confirmed_hashes_upto(p: Seq<OrderedTxView>, confirmed: u64, n: int) -> Set<Seq<u8>> {
    Set::new(
        |h: Seq<u8>|
            exists|k: int| 0 <= k < n && (#[trigger] p[k]).nonce <= confirmed && p[k].hash == h,
    )
}

/// The transactions of `v` whose hash differs from `hash`, in order.
pub fn retain_hash_not(v: &Vec<OrderedTransaction>, hash: &[u8; 32]) -> (r: Vec<OrderedTransaction>)
    ensures
        view_seq(r@) == view_seq(v@).filter(hash_not(hash@)),
{
    let ghost s = view_seq(v@);
    let mut r: Vec<OrderedTransaction> = Vec::new();
    let mut i: usize = 0;
    assert(s.take(0) =~= Seq::<OrderedTxView>::empty());
    assert(view_seq(r@) =~= Seq::<OrderedTxView>::empty());
    proof { reveal(Seq::filter); }
    while i < v.len()
        invariant
            0 <= i <= v.len(),
            s == view_seq(v@),
            view_seq(r@) == s.take(i as int).filter(hash_not(hash@)),
        decreases v.len() - i,
    {
        assert(s.take(i + 1) =~= s.take(i as int).push(s[i as int]));
        proof { s.take(i as int).lemma_filter_push(s[i as int], hash_not(hash@)); }
        if !eq_bytes32(&v[i].hash, hash) {
            let t = v[i].clone();
            let ghost r0 = r@;
            r.push(t);
            proof { lemma_view_seq_push(r0, t); }
        }
        i = i + 1;
    }
    assert(s.take(v.len() as int) =~= s);
    r
}

/// The pending transactions of a list of queues, queue after queue.
pub open spec fn all_pending(qs: Seq<SenderQueueView>) -> Seq<OrderedTxView>
    decreases qs.len(),
{
    if qs.len() == 0 {
        Seq::empty()
    } else {
        all_pending(qs.drop_last()) + qs.last().pending
    }
}

/// Whether a hash is among the excluded ones.
pub open spec fn excluded_set(excluded: Seq<[u8; 32]>) -> Set<Seq<u8>> {
    Set::new(|h: Seq<u8>| exists|i: int| 0 <= i < excluded.len() && (#[trigger] excluded[i])@ == h)
}

/// Candidates for a block: every transaction whose hash is not excluded.
pub open spec fn not_excluded(excluded: Set<Seq<u8>>) -> spec_fn(OrderedTxView) -> bool {
    |t: OrderedTxView| !excluded.contains(t.hash)
}

/// The nonce that the next transaction of `sender` included in a block must
/// carry: one past the last one included, else the queue's next nonce, else 0.
pub open spec fn block_expected_nonce(
    included: Map<Seq<u8>, int>,
    queues: Map<Seq<u8>, SenderQueueView>,
    sender: Seq<u8>,
) -> int {
    if included.contains_key(sender) {
        included[sender]
    } else if queues.contains_key(sender) {
        queues[sender].next_nonce as int
    } else {
        0
    }
}

/// The encodings that block building takes from candidates `s` (in serving
/// order): walking `s` once, a transaction is taken when it carries its
/// sender's expected nonce, until `room` transactions have been taken.
pub open spec fn block_selection(
    s: Seq<OrderedTxView>,
    room: int,
    included: Map<Seq<u8>, int>,
    queues: Map<Seq<u8>, SenderQueueView>,
) -> Seq<Seq<u8>>
    decreases s.len(),
{
    if s.len() == 0 || room <= 0 {
        Seq::empty()
    } else {
        let tx = s[0];
        if tx.nonce == block_expected_nonce(included, queues, tx.sender) {
            seq![tx.encoded] + block_selection(
                s.drop_first(),
                room - 1,
                included.insert(tx.sender, tx.nonce + 1),
                queues,
            )
        } else {
            block_selection(s.drop_first(), room, included, queues)
        }
    }
}

/// The pool after dropping the transactions with hashes `ids`, one after the
/// other, from the index and from their senders' queues (before empty
/// queues are dropped), with the senders touched.
pub open spec fn prune_spec(
    txs: Map<Seq<u8>, OrderedTxView>,
    queues: Map<Seq<u8>, SenderQueueView>,
    ids: Seq<Seq<u8>>,
) -> (Map<Seq<u8>, OrderedTxView>, Map<Seq<u8>, SenderQueueView>, Set<Seq<u8>>)
    decreases ids.len(),
{
    if ids.len() == 0 {
        (txs, queues, Set::empty())
    } else {
        let (t1, q1, a1) = prune_spec(txs, queues, ids.drop_last());
        let h = ids.last();
        if t1.contains_key(h) {
            let s = t1[h].sender;
            (
                t1.remove(h),
                if q1.contains_key(s) {
                    q1.insert(s, rebase(strip_hash(q1[s], h)))
                } else {
                    q1
                },
                a1.insert(s),
            )
        } else {
            (t1, q1, a1)
        }
    }
}

/// Every queue that pruning touched and kept has consecutive pending nonces
/// from its next nonce.
pub proof fn lemma_prune_keeps_runs(
    txs: Map<Seq<u8>, OrderedTxView>,
    queues: Map<Seq<u8>, SenderQueueView>,
    ids: Seq<Seq<u8>>,
)
    ensures
        forall|s: Seq<u8>|
            #[trigger] prune_spec(txs, queues, ids).2.contains(s) && prune_spec(txs, queues, ids).1.contains_key(s)
                ==> pending_consecutive(prune_spec(txs, queues, ids).1[s]),
    decreases ids.len(),
{
    if ids.len() > 0 {
        let prev = ids.drop_last();
        lemma_prune_keeps_runs(txs, queues, prev);
        let (t1, q1, a1) = prune_spec(txs, queues, prev);
        let h = ids.last();
        if t1.contains_key(h) {
            let s0 = t1[h].sender;
            if q1.contains_key(s0) {
                lemma_rebase_consecutive(strip_hash(q1[s0], h));
            }
        }
    }
}

/// Queues of `senders` that are empty.
pub open spec fn empty_queues_among(queues: Map<Seq<u8>, SenderQueueView>, senders: Set<Seq<u8>>) -> Set<
    Seq<u8>,
> {
    Set::new(
        |s: Seq<u8>|
            senders.contains(s) && queues.contains_key(s) && queues[s].pending.len() == 0
                && queues[s].queued.len() == 0,
    )
}

/// A thread-unaware transaction pool with nonce ordering and fee
/// prioritization; callers that share it wrap it in a lock.
#[derive(Debug)]
pub struct TransactionPool {
    by_hash: Vec<OrderedTransaction>,
    by_sender: Vec<SenderQueue>,
    pending_count: usize,
    queued_count: usize,
    config: PoolConfig,
}

impl TransactionPool {
    /// Transactions of the pool by hash.
    pub closed spec fn txs(&self) -> Map<Seq<u8>, OrderedTxView> {
        keyed_map(view_seq(self.by_hash@), tx_key())
    }

    /// Sender queues of the pool, in the order they were created.
    pub closed spec fn queue_list(&self) -> Seq<SenderQueueView> {
        queue_seq(self.by_sender@)
    }

    /// Sender queues of the pool by sender.
    pub closed spec fn queues(&self) -> Map<Seq<u8>, SenderQueueView> {
        keyed_map(self.queue_list(), queue_key())
    }

    /// The configuration the pool was made with.
    pub closed spec fn spec_config(&self) -> PoolConfig {
        self.config
    }

    /// The pool's internal invariant.
    pub closed spec fn wf(&self) -> bool {
        &&& self.hashes_distinct()
        &&& self.senders_distinct()
        &&& self.pending_count == capped(total_pending(self.queue_list()))
        &&& self.queued_count == capped(total_queued(self.queue_list()))
        &&& pool_consistent(self.txs(), self.queues())
    }

    spec fn hashes_distinct(&self) -> bool {
        keys_distinct(view_seq(self.by_hash@), tx_key())
    }

    spec fn senders_distinct(&self) -> bool {
        keys_distinct(self.queue_list(), queue_key())
    }

    /// Number of pending transactions the pool reports.
    pub closed spec fn spec_pending_count(&self) -> usize {
        capped(total_pending(self.queue_list()))
    }

    /// Number of queued transactions the pool reports.
    pub closed spec fn spec_queued_count(&self) -> usize {
        capped(total_queued(self.queue_list()))
    }

    /// The counts the pool reports are the numbers of pending and of queued
    /// transactions over all its queues (saturating at `usize::MAX`).
    pub proof fn lemma_counts_of_queues(&self)
        requires
            self.wf(),
        ensures
            self.spec_pending_count() == capped(pending_in(self.queues())),
            self.spec_queued_count() == capped(queued_in(self.queues())),
    {
        lemma_totals_of_list(self.queue_list());
    }

    /// The pool holds exactly the transactions its queues hold: its size is
    /// the number of pending plus the number of queued transactions.
    pub proof fn lemma_len_is_counts(&self)
        requires
            self.wf(),
        ensures
            self.txs().len() == self.spec_pending_count() + self.spec_queued_count(),
    {
        lemma_index_len(self.txs(), self.queue_list());
        self.lemma_txs_len();
        lemma_totals_nonneg(self.queue_list());
    }

    /// Creates a new, empty transaction pool with the given configuration.
    pub fn new(config: PoolConfig) -> (p: Self)
        ensures
            p.wf(),
            p.txs() == Map::<Seq<u8>, OrderedTxView>::empty(),
            p.queues() == Map::<Seq<u8>, SenderQueueView>::empty(),
            p.spec_config() == config,
    {
        let p = TransactionPool {
            by_hash: Vec::new(),
            by_sender: Vec::new(),
            pending_count: 0,
            queued_count: 0,
            config,
        };
        assert(view_seq(p.by_hash@) =~= Seq::<OrderedTxView>::empty());
        assert(p.queue_list() =~= Seq::<SenderQueueView>::empty());
        p
    }

    /// Index of the transaction with the given hash.
    fn find_tx(&self, hash: &[u8; 32]) -> (r: Option<usize>)
        requires
            self.hashes_distinct(),
        ensures
            match r {
                Some(i) => i < self.by_hash.len() && self.by_hash@[i as int].hash@ == hash@
                    && self.txs().contains_key(hash@) && self.txs()[hash@] == self.by_hash@[i as int]@,
                None => !self.txs().contains_key(hash@),
            },
    {
        let ghost s = view_seq(self.by_hash@);
        let mut i: usize = 0;
        while i < self.by_hash.len()
            invariant
                0 <= i <= self.by_hash.len(),
                s == view_seq(self.by_hash@),
                keys_distinct(s, tx_key()),
                forall|k: int| 0 <= k < i ==> (#[trigger] s[k]).hash != hash@,
            decreases self.by_hash.len() - i,
        {
            if eq_bytes32(&self.by_hash[i].hash, hash) {
                proof { lemma_keyed_map_index(s, tx_key(), i as int); }
                return Some(i);
            }
            i = i + 1;
        }
        proof { lemma_keyed_map_dom(s, tx_key(), hash@); }
        None
    }

    /// Index of the queue of the given sender.
    fn find_queue(&self, sender: &[u8; 20]) -> (r: Option<usize>)
        requires
            self.senders_distinct(),
        ensures
            match r {
                Some(i) => i < self.by_sender.len() && self.by_sender@[i as int].sender@ == sender@
                    && self.queues().contains_key(sender@) && self.queues()[sender@]
                    == self.by_sender@[i as int]@,
                None => !self.queues().contains_key(sender@),
            },
    {
        let ghost s = self.queue_list();
        let mut i: usize = 0;
        while i < self.by_sender.len()
            invariant
                0 <= i <= self.by_sender.len(),
                s == self.queue_list(),
                keys_distinct(s, queue_key()),
                forall|k: int| 0 <= k < i ==> (#[trigger] s[k]).sender != sender@,
            decreases self.by_sender.len() - i,
        {
            if eq_bytes20(&self.by_sender[i].sender, sender) {
                proof { lemma_keyed_map_index(s, queue_key(), i as int); }
                return Some(i);
            }
            i = i + 1;
        }
        proof { lemma_keyed_map_dom(s, queue_key(), sender@); }
        None
    }

    /// Recomputes the pending and queued counters from the queues.
    fn update_counts(&mut self)
        ensures
            final(self).by_hash == old(self).by_hash,
            final(self).by_sender == old(self).by_sender,
            final(self).config == old(self).config,
            final(self).pending_count == capped(total_pending(final(self).queue_list())),
            final(self).queued_count == capped(total_queued(final(self).queue_list())),
    {
        let ghost qs = self.queue_list();
        let mut p: usize = 0;
        let mut q: usize = 0;
        let mut i: usize = 0;
        while i < self.by_sender.len()
            invariant
                0 <= i <= self.by_sender.len(),
                qs == self.queue_list(),
                p == capped(total_pending(qs.take(i as int))),
                q == capped(total_queued(qs.take(i as int))),
            decreases self.by_sender.len() - i,
        {
            assert(qs.take(i + 1).drop_last() =~= qs.take(i as int));
            assert(qs.take(i + 1).last() == self.by_sender@[i as int]@);
            proof {
                lemma_totals_nonneg(qs.take(i as int));
            }
            p = p.saturating_add(self.by_sender[i].pending.len());
            q = q.saturating_add(self.by_sender[i].queued.len());
            i = i + 1;
        }
        assert(qs.take(self.by_sender.len() as int) =~= qs);
        self.pending_count = p;
        self.queued_count = q;
    }

    /// Adds a validated transaction to the pool.
    ///
    /// A transaction whose hash is known is refused with `AlreadyExists`; so
    /// is one whose nonce is already used up. A sender at the per-sender
    /// limit is refused with `SenderFull`. A transaction with the nonce of a
    /// pending one replaces it when its price is higher by at least the
    /// configured `replacement_bump_percent`, and is refused with
    /// `ReplacementUnderpriced`, the pool unchanged, otherwise.
    pub fn add(&mut self, tx: OrderedTransaction) -> (r: Result<(), TxPoolError>)
        requires
            old(self).wf(),
        ensures
            final(self).wf(),
            final(self).spec_config() == old(self).spec_config(),
            (final(self).txs(), final(self).queues(), add_outcome_of(r)) == add_spec(
                old(self).txs(),
                old(self).queues(),
                old(self).spec_config().max_txs_per_sender,
                old(self).spec_config().replacement_bump_percent,
                tx@,
            ),
            r is Ok || r == Err::<(), TxPoolError>(TxPoolError::AlreadyExists) || r == Err::<
                (),
                TxPoolError,
            >(TxPoolError::SenderFull(tx.sender)) || r == Err::<(), TxPoolError>(
                TxPoolError::ReplacementUnderpriced,
            ),
    {
        proof {
            lemma_add_consistent(
                self.txs(),
                self.queues(),
                self.config.max_txs_per_sender,
                self.config.replacement_bump_percent,
                tx@,
            );
        }
        if self.find_tx(&tx.hash).is_some() {
            return Err(TxPoolError::AlreadyExists);
        }
        let ghost queues0 = self.queues();
        let ghost q0 = queue_for(queues0, tx@);
        let qi = match self.find_queue(&tx.sender) {
            Some(i) => i,
            None => {
                let q = SenderQueue::new(tx.sender, tx.nonce);
                let ghost l0 = self.by_sender@;
                self.by_sender.push(q);
                proof {
                    assert(queue_seq(self.by_sender@) =~= queue_seq(l0).push(q@));
                    lemma_keyed_map_push(queue_seq(l0), queue_key(), q@);
                }
                self.by_sender.len() - 1
            },
        };
        proof {
            lemma_keyed_map_index(self.queue_list(), queue_key(), qi as int);
            assert(self.queue_list()[qi as int] == self.by_sender@[qi as int]@);
            assert(self.by_sender@[qi as int]@ == q0);
            assert(self.queues() == queues0.insert(tx@.sender, q0));
        }
        let total: u128 = self.by_sender[qi].pending.len() as u128
            + self.by_sender[qi].queued.len() as u128;
        if total >= self.config.max_txs_per_sender as u128 {
            self.update_counts();
            return Err(TxPoolError::SenderFull(tx.sender));
        }
        let next = self.by_sender[qi].next_nonce;
        let held: u128 = self.by_sender[qi].pending.len() as u128;
        if tx.nonce >= next && (tx.nonce as u128) < next as u128 + held {
            let idx = (tx.nonce - next) as usize;
            let old_price = self.by_sender[qi].pending[idx].effective_gas_price;
            proof {
                assert(self.by_sender@[qi as int].pending@[idx as int]@ == q0.pending[idx as int]);
            }
            if !outbids_price(tx.effective_gas_price, old_price, self.config.replacement_bump_percent) {
                proof {
                    assert(queues0.contains_key(tx@.sender));
                    assert(queues0.insert(tx@.sender, q0) =~= queues0);
                }
                self.update_counts();
                return Err(TxPoolError::ReplacementUnderpriced);
            }
            let ghost l2 = self.by_sender@;
            let replaced = self.by_sender[qi].replace_pending(idx, tx.clone());
            proof {
                let q2 = SenderQueueView { pending: q0.pending.update(idx as int, tx@), ..q0 };
                assert(self.by_sender@ == l2.update(qi as int, self.by_sender@[qi as int]));
                assert(queue_seq(self.by_sender@) =~= queue_seq(l2).update(qi as int, q2));
                lemma_keyed_map_update(queue_seq(l2), queue_key(), qi as int, q2);
                assert(self.queues() == queues0.insert(tx@.sender, q2));
            }
            match self.find_tx(&replaced.hash) {
                Some(j) => {
                    let ghost b0 = self.by_hash@;
                    self.by_hash.remove(j);
                    proof {
                        lemma_view_seq_remove(b0, j as int);
                        lemma_keyed_map_remove(view_seq(b0), tx_key(), j as int);
                    }
                },
                None => {
                    proof {
                        assert(self.txs().remove(replaced@.hash) =~= self.txs());
                    }
                },
            }
            let ghost b2 = self.by_hash@;
            proof {
                lemma_keyed_map_dom(view_seq(b2), tx_key(), tx@.hash);
            }
            self.by_hash.push(tx);
            proof {
                lemma_view_seq_push(b2, tx);
                lemma_keyed_map_push(view_seq(b2), tx_key(), tx@);
            }
            self.update_counts();
            return Ok(());
        }
        let hash = tx.hash;
        let copy = tx.clone();
        let ghost l1 = self.by_sender@;
        let ret = self.by_sender[qi].insert(copy);
        proof {
            let q1 = insert_spec(q0, tx@).0;
            assert(self.by_sender@ == l1.update(qi as int, self.by_sender@[qi as int]));
            assert(queue_seq(self.by_sender@) =~= queue_seq(l1).update(qi as int, q1));
            lemma_keyed_map_update(queue_seq(l1), queue_key(), qi as int, q1);
            assert(self.queues() == queues0.insert(tx@.sender, q1));
        }
        match ret {
            Some(replaced) => {
                if eq_bytes32(&replaced.hash, &hash) {
                    self.update_counts();
                    return Err(TxPoolError::AlreadyExists);
                }
                match self.find_tx(&replaced.hash) {
                    Some(j) => {
                        let ghost b0 = self.by_hash@;
                        self.by_hash.remove(j);
                        proof {
                            lemma_view_seq_remove(b0, j as int);
                            lemma_keyed_map_remove(view_seq(b0), tx_key(), j as int);
                        }
                    },
                    None => {
                        proof {
                            assert(self.txs().remove(replaced@.hash) =~= self.txs());
                        }
                    },
                }
            },
            None => {},
        }
        let ghost b1 = self.by_hash@;
        proof {
            lemma_keyed_map_dom(view_seq(b1), tx_key(), tx@.hash);
        }
        self.by_hash.push(tx);
        proof {
            lemma_view_seq_push(b1, tx);
            lemma_keyed_map_push(view_seq(b1), tx_key(), tx@);
        }
        self.update_counts();
        Ok(())
    }

    /// Puts a changed queue back at index `qi`, or drops it when it is empty.
    fn put_back_queue(&mut self, qi: usize, q: SenderQueue)
        requires
            old(self).senders_distinct(),
            qi < old(self).by_sender.len(),
            old(self).by_sender@[qi as int]@.sender == q@.sender,
        ensures
            final(self).senders_distinct(),
            final(self).by_hash == old(self).by_hash,
            final(self).config == old(self).config,
            final(self).queues() == put_or_drop(old(self).queues(), q@),
    {
        let ghost l0 = self.by_sender@;
        proof {
            lemma_keyed_map_index(queue_seq(l0), queue_key(), qi as int);
        }
        if q.pending.len() == 0 && q.queued.len() == 0 {
            self.by_sender.remove(qi);
            proof {
                assert(queue_seq(self.by_sender@) =~= queue_seq(l0).remove(qi as int));
                lemma_keyed_map_remove(queue_seq(l0), queue_key(), qi as int);
            }
        } else {
            self.by_sender.set(qi, q);
            proof {
                assert(queue_seq(self.by_sender@) =~= queue_seq(l0).update(qi as int, q@));
                lemma_keyed_map_update(queue_seq(l0), queue_key(), qi as int, q@);
            }
        }
    }

    /// Removes the transaction at index `i` of the hash index.
    fn remove_tx_at(&mut self, i: usize) -> (t: OrderedTransaction)
        requires
            old(self).hashes_distinct(),
            i < old(self).by_hash.len(),
        ensures
            final(self).hashes_distinct(),
            final(self).by_sender == old(self).by_sender,
            final(self).config == old(self).config,
            t@ == old(self).by_hash@[i as int]@,
            old(self).txs().contains_key(t@.hash),
            old(self).txs()[t@.hash] == t@,
            final(self).txs() == old(self).txs().remove(t@.hash),
    {
        let ghost b0 = self.by_hash@;
        proof {
            lemma_keyed_map_index(view_seq(b0), tx_key(), i as int);
        }
        let t = self.by_hash.remove(i);
        proof {
            lemma_view_seq_remove(b0, i as int);
            lemma_keyed_map_remove(view_seq(b0), tx_key(), i as int);
        }
        t
    }

    /// Removes a transaction by its hash, from the index and from its
    /// sender's queue; a queue left empty is dropped.
    pub fn remove(&mut self, hash: &[u8; 32]) -> (r: Option<OrderedTransaction>)
        requires
            old(self).wf(),
        ensures
            final(self).wf(),
            final(self).spec_config() == old(self).spec_config(),
            match r {
                Some(t) => {
                    &&& old(self).txs().contains_key(hash@)
                    &&& t@ == old(self).txs()[hash@]
                    &&& final(self).txs() == old(self).txs().remove(hash@)
                    &&& final(self).queues() == remove_from_queues(old(self).queues(), t@.sender, hash@)
                },
                None => {
                    &&& !old(self).txs().contains_key(hash@)
                    &&& final(self).txs() == old(self).txs()
                    &&& final(self).queues() == old(self).queues()
                },
            },
    {
        let i = match self.find_tx(hash) {
            Some(i) => i,
            None => return None,
        };
        proof {
            lemma_remove_consistent(self.txs(), self.queues(), hash@);
        }
        let tx = self.remove_tx_at(i);
        match self.find_queue(&tx.sender) {
            Some(qi) => {
                let pending = retain_hash_not(&self.by_sender[qi].pending, hash);
                let queued = retain_hash_not(&self.by_sender[qi].queued, hash);
                let q = SenderQueue {
                    sender: self.by_sender[qi].sender,
                    next_nonce: self.by_sender[qi].next_nonce,
                    pending,
                    queued,
                };
                self.put_back_queue(qi, q);
            },
            None => {},
        }
        self.update_counts();
        Some(tx)
    }

    /// One step of retiring confirmed transactions: the transaction at
    /// position `k` of `all` leaves the index when its nonce is confirmed.
    fn retire_if_confirmed(
        &mut self,
        h: &[u8; 32],
        nonce: u64,
        confirmed_nonce: u64,
        Ghost(all): Ghost<Seq<OrderedTxView>>,
        Ghost(t0): Ghost<Map<Seq<u8>, OrderedTxView>>,
        Ghost(k): Ghost<int>,
    )
        requires
            old(self).hashes_distinct(),
            0 <= k < all.len(),
            all[k].hash == h@,
            all[k].nonce == nonce,
            old(self).txs() == t0.remove_keys(confirmed_hashes_upto(all, confirmed_nonce, k)),
        ensures
            final(self).hashes_distinct(),
            final(self).by_sender == old(self).by_sender,
            final(self).config == old(self).config,
            final(self).txs() == t0.remove_keys(confirmed_hashes_upto(all, confirmed_nonce, k + 1)),
    {
        if nonce <= confirmed_nonce {
            match self.find_tx(h) {
                Some(j) => {
                    self.remove_tx_at(j);
                },
                None => {},
            }
            assert(self.txs() =~= t0.remove_keys(confirmed_hashes_upto(all, confirmed_nonce, k + 1)));
        } else {
            assert(confirmed_hashes_upto(all, confirmed_nonce, k + 1) =~= confirmed_hashes_upto(
                all,
                confirmed_nonce,
                k,
            ));
        }
    }

    /// Removes confirmed transactions of `sender` up to and including
    /// `confirmed_nonce`: every one of its transactions at or below that
    /// nonce, pending or queued, leaves the hash index and its queue (a queue
    /// left empty is dropped).
    pub fn remove_confirmed(&mut self, sender: &[u8; 20], confirmed_nonce: u64)
        requires
            old(self).wf(),
            old(self).queues().contains_key(sender@) ==> confirmed_nonce < u64::MAX,
        ensures
            final(self).wf(),
            final(self).spec_config() == old(self).spec_config(),
            old(self).queues().contains_key(sender@) ==> {
                &&& final(self).txs() == old(self).txs().remove_keys(
                    confirmed_hashes(old(self).queues()[sender@], confirmed_nonce),
                )
                &&& final(self).queues() == put_or_drop(
                    old(self).queues(),
                    remove_confirmed_spec(old(self).queues()[sender@], confirmed_nonce),
                )
            },
            !old(self).queues().contains_key(sender@) ==> {
                &&& final(self).txs() == old(self).txs()
                &&& final(self).queues() == old(self).queues()
            },
            forall|h: Seq<u8>|
                #[trigger] final(self).txs().contains_key(h) && final(self).txs()[h].sender == sender@
                    ==> final(self).txs()[h].nonce > confirmed_nonce,
            forall|h: Seq<u8>|
                #[trigger] old(self).txs().contains_key(h) && old(self).txs()[h].sender != sender@
                    ==> final(self).txs().contains_key(h) && final(self).txs()[h] == old(self).txs()[h],
            final(self).txs().len() == final(self).spec_pending_count() + final(self).spec_queued_count(),
    {
        let qi = match self.find_queue(sender) {
            Some(qi) => qi,
            None => {
                proof {
                    assert(self.txs() == old(self).txs());
                    self.lemma_len_is_counts();
                }
                return;
            },
        };
        let ghost q0 = self.by_sender@[qi as int]@;
        let ghost t0 = self.txs();
        let ghost all = q0.pending + q0.queued;
        proof {
            lemma_remove_confirmed_consistent(t0, self.queues(), sender@, confirmed_nonce);
        }
        let np = self.by_sender[qi].pending.len();
        let nq = self.by_sender[qi].queued.len();
        assert(t0.remove_keys(confirmed_hashes_upto(all, confirmed_nonce, 0)) =~= t0);
        let mut k: usize = 0;
        while k < np
            invariant
                0 <= k <= np,
                np == q0.pending.len(),
                all == q0.pending + q0.queued,
                qi < self.by_sender.len(),
                self.by_sender == old(self).by_sender,
                self.config == old(self).config,
                self.by_sender@[qi as int]@ == q0,
                self.hashes_distinct(),
                self.txs() == t0.remove_keys(confirmed_hashes_upto(all, confirmed_nonce, k as int)),
            decreases np - k,
        {
            let nonce = self.by_sender[qi].pending[k].nonce;
            let h = self.by_sender[qi].pending[k].hash;
            assert(all[k as int].hash == h@ && all[k as int].nonce == nonce);
            self.retire_if_confirmed(&h, nonce, confirmed_nonce, Ghost(all), Ghost(t0), Ghost(k as int));
            k = k + 1;
        }
        let mut j: usize = 0;
        while j < nq
            invariant
                0 <= j <= nq,
                np == q0.pending.len(),
                nq == q0.queued.len(),
                all == q0.pending + q0.queued,
                qi < self.by_sender.len(),
                self.by_sender == old(self).by_sender,
                self.config == old(self).config,
                self.by_sender@[qi as int]@ == q0,
                self.hashes_distinct(),
                self.txs() == t0.remove_keys(confirmed_hashes_upto(all, confirmed_nonce, np + j)),
            decreases nq - j,
        {
            let nonce = self.by_sender[qi].queued[j].nonce;
            let h = self.by_sender[qi].queued[j].hash;
            assert(all[np + j].hash == h@ && all[np + j].nonce == nonce);
            self.retire_if_confirmed(&h, nonce, confirmed_nonce, Ghost(all), Ghost(t0), Ghost(np + j));
            j = j + 1;
        }
        assert(confirmed_hashes_upto(all, confirmed_nonce, np + nq) =~= confirmed_hashes(
            q0,
            confirmed_nonce,
        ));
        let mut q = SenderQueue {
            sender: self.by_sender[qi].sender,
            next_nonce: self.by_sender[qi].next_nonce,
            pending: copy_transactions(&self.by_sender[qi].pending),
            queued: copy_transactions(&self.by_sender[qi].queued),
        };
        assert(q@ == q0);
        q.remove_confirmed(confirmed_nonce);
        self.put_back_queue(qi, q);
        self.update_counts();
        proof {
            self.lemma_len_is_counts();
        }
    }

    /// Returns the pending transactions of a specific sender, in nonce order.
    pub fn pending_for_sender(&self, sender: &[u8; 20]) -> (r: Vec<OrderedTransaction>)
        requires
            self.wf(),
        ensures
            self.queues().contains_key(sender@) ==> view_seq(r@) == self.queues()[sender@].pending,
            !self.queues().contains_key(sender@) ==> r@.len() == 0,
    {
        match self.find_queue(sender) {
            Some(qi) => copy_transactions(&self.by_sender[qi].pending),
            None => Vec::new(),
        }
    }

    /// All pending transactions of the pool.
    pub closed spec fn pending_txs(&self) -> Multiset<OrderedTxView> {
        all_pending(self.queue_list()).to_multiset()
    }

    /// Copies of all pending transactions, queue after queue.
    fn collect_pending(&self) -> (r: Vec<OrderedTransaction>)
        ensures
            view_seq(r@) == all_pending(self.queue_list()),
    {
        let ghost qs = self.queue_list();
        let mut r: Vec<OrderedTransaction> = Vec::new();
        let mut i: usize = 0;
        assert(view_seq(r@) =~= all_pending(qs.take(0)));
        while i < self.by_sender.len()
            invariant
                0 <= i <= self.by_sender.len(),
                qs == self.queue_list(),
                view_seq(r@) == all_pending(qs.take(i as int)),
            decreases self.by_sender.len() - i,
        {
            let ghost r0 = view_seq(r@);
            let mut j: usize = 0;
            let n = self.by_sender[i].pending.len();
            let ghost p = qs[i as int].pending;
            assert(p == view_seq(self.by_sender@[i as int].pending@));
            while j < n
                invariant
                    0 <= j <= n,
                    i < self.by_sender.len(),
                    n == p.len(),
                    p == view_seq(self.by_sender@[i as int].pending@),
                    view_seq(r@) == r0 + p.take(j as int),
                decreases n - j,
            {
                let t = self.by_sender[i].pending[j].clone();
                let ghost rv = r@;
                r.push(t);
                proof {
                    lemma_view_seq_push(rv, t);
                    assert(p.take(j + 1) =~= p.take(j as int).push(t@));
                    assert(r0 + p.take(j + 1) =~= (r0 + p.take(j as int)).push(t@));
                }
                j = j + 1;
            }
            proof {
                assert(p.take(n as int) =~= p);
                assert(qs.take(i + 1).drop_last() =~= qs.take(i as int));
                assert(qs.take(i + 1).last() == qs[i as int]);
            }
            i = i + 1;
        }
        assert(qs.take(self.by_sender.len() as int) =~= qs);
        r
    }

    /// Returns up to `max_txs` pending transactions, best first: the head of
    /// all pending transactions sorted in serving order.
    pub fn pending(&self, max_txs: usize) -> (r: Vec<OrderedTransaction>)
        requires
            self.wf(),
        ensures
            sorted_by_priority(view_seq(r@)),
            r@.len() == if max_txs < self.pending_txs().len() { max_txs as nat } else { self.pending_txs().len() },
            exists|s: Seq<OrderedTxView>|
                #![trigger s.to_multiset()]
                sorted_by_priority(s) && s.to_multiset() == self.pending_txs() && view_seq(r@) == s.take(
                    r@.len() as int,
                ),
    {
        let all = self.collect_pending();
        let ghost a = view_seq(all@);
        let mut sorted = sort_by_priority(all);
        let ghost s = view_seq(sorted@);
        proof {
            a.to_multiset_ensures();
            s.to_multiset_ensures();
        }
        if max_txs < sorted.len() {
            sorted.truncate(max_txs);
        }
        proof {
            assert(view_seq(sorted@) =~= s.take(sorted@.len() as int));
            assert forall|i: int, j: int| 0 <= i < j < view_seq(sorted@).len() implies !crate::txpool::priority::served_before(
                #[trigger] view_seq(sorted@)[j],
                #[trigger] view_seq(sorted@)[i],
            ) by {
                assert(view_seq(sorted@)[i] == s[i]);
                assert(view_seq(sorted@)[j] == s[j]);
            }
        }
        sorted
    }

    /// Builds the transaction list of a block: among pending transactions
    /// whose hash is not excluded, in serving order, a transaction is taken
    /// when it carries its sender's next nonce, up to `max_txs` of them.
    /// Returns their network encodings.
    pub fn build(&self, max_txs: usize, excluded: &Vec<[u8; 32]>) -> (r: Vec<Vec<u8>>)
        requires
            self.wf(),
        ensures
            exists|s: Seq<OrderedTxView>|
                #![trigger s.to_multiset()]
                sorted_by_priority(s) && s.to_multiset() == all_pending(self.queue_list()).filter(
                    not_excluded(excluded_set(excluded@)),
                ).to_multiset() && r@.map_values(|e: Vec<u8>| e@) == block_selection(
                    s,
                    max_txs as int,
                    Map::empty(),
                    self.queues(),
                ),
    {
        let all = self.collect_pending();
        let ghost a = view_seq(all@);
        let ghost ex = excluded_set(excluded@);
        let mut candidates: Vec<OrderedTransaction> = Vec::new();
        let mut i: usize = 0;
        proof { reveal(Seq::filter); }
        assert(view_seq(candidates@) =~= a.take(0).filter(not_excluded(ex)));
        while i < all.len()
            invariant
                0 <= i <= all.len(),
                a == view_seq(all@),
                ex == excluded_set(excluded@),
                view_seq(candidates@) == a.take(i as int).filter(not_excluded(ex)),
            decreases all.len() - i,
        {
            assert(a.take(i + 1) =~= a.take(i as int).push(a[i as int]));
            proof { a.take(i as int).lemma_filter_push(a[i as int], not_excluded(ex)); }
            let is_excluded = contains_hash(excluded, &all[i].hash);
            if !is_excluded {
                let t = all[i].clone();
                let ghost c0 = candidates@;
                candidates.push(t);
                proof { lemma_view_seq_push(c0, t); }
            }
            i = i + 1;
        }
        assert(a.take(all.len() as int) =~= a);
        let ghost c = view_seq(candidates@);
        let sorted = sort_by_priority(candidates);
        let ghost s = view_seq(sorted@);
        let ghost queues = self.queues();
        let mut result: Vec<Vec<u8>> = Vec::new();
        let mut included: Vec<([u8; 20], u128)> = Vec::new();
        let mut k: usize = 0;
        proof {
            assert(s.skip(0) =~= s);
            assert(result@.map_values(|e: Vec<u8>| e@) =~= Seq::<Seq<u8>>::empty());
            assert(included_map(included@) =~= Map::<Seq<u8>, int>::empty());
        }
        loop
            invariant
                0 <= k <= sorted.len(),
                s == view_seq(sorted@),
                queues == self.queues(),
                self.wf(),
                result@.len() <= max_txs,
                block_selection(s, max_txs as int, Map::empty(), queues) == result@.map_values(
                    |e: Vec<u8>| e@,
                ) + block_selection(
                    s.skip(k as int),
                    max_txs - result@.len(),
                    included_map(included@),
                    queues,
                ),
            ensures
                block_selection(s, max_txs as int, Map::empty(), queues) == result@.map_values(
                    |e: Vec<u8>| e@,
                ),
            decreases sorted.len() - k,
        {
            if k >= sorted.len() {
                proof {
                    assert(block_selection(s.skip(k as int), max_txs - result@.len(), included_map(included@), queues)
                        =~= Seq::<Seq<u8>>::empty());
                    assert(result@.map_values(|e: Vec<u8>| e@) + Seq::<Seq<u8>>::empty()
                        =~= result@.map_values(|e: Vec<u8>| e@));
                }
                break;
            }
            if result.len() >= max_txs {
                proof {
                    assert(block_selection(s.skip(k as int), 0, included_map(included@), queues)
                        =~= Seq::<Seq<u8>>::empty());
                    assert(result@.map_values(|e: Vec<u8>| e@) + Seq::<Seq<u8>>::empty()
                        =~= result@.map_values(|e: Vec<u8>| e@));
                }
                break;
            }
            let tx = &sorted[k];
            let expected: u128 = match lookup_included(&included, &tx.sender) {
                Some(n) => n,
                None => match self.find_queue(&tx.sender) {
                    Some(qi) => self.by_sender[qi].next_nonce as u128,
                    None => 0,
                },
            };
            proof {
                assert(s.skip(k as int)[0] == tx@);
                assert(s.skip(k as int).drop_first() =~= s.skip(k + 1));
                assert(expected as int == block_expected_nonce(included_map(included@), queues, tx@.sender));
            }
            if tx.nonce as u128 == expected {
                let ghost inc0 = included@;
                let ghost res0 = result@;
                set_included(&mut included, tx.sender, tx.nonce as u128 + 1);
                result.push(tx.encoded.clone());
                proof {
                    assert(result@.map_values(|e: Vec<u8>| e@) =~= res0.map_values(|e: Vec<u8>| e@).push(tx@.encoded));
                    assert(seq![tx@.encoded] + block_selection(
                        s.skip(k + 1),
                        max_txs - res0.len() - 1,
                        included_map(included@),
                        queues,
                    ) =~= block_selection(s.skip(k as int), max_txs - res0.len(), included_map(inc0), queues));
                    assert(res0.map_values(|e: Vec<u8>| e@) + (seq![tx@.encoded] + block_selection(
                        s.skip(k + 1),
                        max_txs - res0.len() - 1,
                        included_map(included@),
                        queues,
                    )) =~= result@.map_values(|e: Vec<u8>| e@) + block_selection(
                        s.skip(k + 1),
                        max_txs - result@.len(),
                        included_map(included@),
                        queues,
                    ));
                }
            }
            k = k + 1;
        }
        proof {
            assert(s.to_multiset() == c.to_multiset());
            assert(c == all_pending(self.queue_list()).filter(not_excluded(excluded_set(excluded@))));
            assert(sorted_by_priority(s));
        }
        result
    }

    /// Replaces the queue at index `qi` by its copy without the transaction
    /// with `hash`, rebased, keeping it even when it becomes empty.
    fn strip_queue_at(&mut self, qi: usize, hash: &[u8; 32])
        requires
            old(self).senders_distinct(),
            qi < old(self).by_sender.len(),
        ensures
            final(self).senders_distinct(),
            final(self).by_hash == old(self).by_hash,
            final(self).config == old(self).config,
            final(self).by_sender.len() == old(self).by_sender.len(),
            final(self).queues() == old(self).queues().insert(
                old(self).by_sender@[qi as int]@.sender,
                rebase(strip_hash(old(self).by_sender@[qi as int]@, hash@)),
            ),
    {
        let ghost l0 = self.by_sender@;
        let pending = retain_hash_not(&self.by_sender[qi].pending, hash);
        let queued = retain_hash_not(&self.by_sender[qi].queued, hash);
        let stripped = SenderQueue {
            sender: self.by_sender[qi].sender,
            next_nonce: self.by_sender[qi].next_nonce,
            pending,
            queued,
        };
        let q = rebase_queue(stripped);
        self.by_sender.set(qi, q);
        proof {
            assert(queue_seq(self.by_sender@) =~= queue_seq(l0).update(qi as int, q@));
            lemma_keyed_map_update(queue_seq(l0), queue_key(), qi as int, q@);
        }
    }

    /// Decodes raw transaction bytes and adds them to the pool; reports
    /// whether they were added. Bytes that are no envelope, or whose
    /// signature does not recover, leave the pool unchanged.
    pub fn insert(&mut self, raw: &Vec<u8>) -> (r: bool)
        requires
            old(self).wf(),
        ensures
            final(self).wf(),
            final(self).spec_config() == old(self).spec_config(),
            !decodes_as_envelope(raw@) ==> !r && final(self).txs() == old(self).txs()
                && final(self).queues() == old(self).queues(),
            r ==> exists|o: OrderedTxView|
                (final(self).txs(), final(self).queues(), AddOutcome::Added) == add_spec(
                    old(self).txs(),
                    old(self).queues(),
                    old(self).spec_config().max_txs_per_sender,
                    old(self).spec_config().replacement_bump_percent,
                    o,
                ),
            decodes_as_envelope(raw@) ==> exists|tx: DecodedTx, timestamp: u64|
                decoded_matches(tx, raw@) && #[trigger] insert_outcome(
                    old(self).txs(),
                    old(self).queues(),
                    old(self).spec_config().max_txs_per_sender,
                    old(self).spec_config().replacement_bump_percent,
                    tx,
                    timestamp,
                    final(self).txs(),
                    final(self).queues(),
                    r,
                ),
    {
        let ghost txs0 = self.txs();
        let ghost queues0 = self.queues();
        let ghost max = self.spec_config().max_txs_per_sender;
        let ghost bump = self.spec_config().replacement_bump_percent;
        let candidate = tx_to_ordered(raw);
        let ghost pick: (DecodedTx, u64) = choose|tx: DecodedTx, timestamp: u64|
            decoded_matches(tx, raw@) && #[trigger] ordered_outcome(tx, timestamp, candidate);
        match candidate {
            Some(o) => {
                let ghost ov = o@;
                let res = self.add(o);
                proof {
                    if res is Ok {
                        assert((self.txs(), self.queues(), AddOutcome::Added) == add_spec(
                            old(self).txs(),
                            old(self).queues(),
                            old(self).spec_config().max_txs_per_sender,
                            old(self).spec_config().replacement_bump_percent,
                            ov,
                        ));
                    }
                    if decodes_as_envelope(raw@) {
                        assert(insert_outcome(
                            txs0,
                            queues0,
                            max,
                            bump,
                            pick.0,
                            pick.1,
                            self.txs(),
                            self.queues(),
                            res is Ok,
                        ));
                    }
                }
                res.is_ok()
            },
            None => {
                proof {
                    if decodes_as_envelope(raw@) {
                        assert(insert_outcome(
                            txs0,
                            queues0,
                            max,
                            bump,
                            pick.0,
                            pick.1,
                            self.txs(),
                            self.queues(),
                            false,
                        ));
                    }
                }
                false
            },
        }
    }

    /// Drops the transactions with the given hashes from the pool: each one
    /// leaves the hash index and its sender's queue, which is then rebased so
    /// that its pending nonces run on from its next nonce; afterwards the
    /// queues of the senders touched that became empty are dropped.
    pub fn prune(&mut self, tx_ids: &Vec<[u8; 32]>)
        requires
            old(self).wf(),
        ensures
            final(self).wf(),
            final(self).spec_config() == old(self).spec_config(),
            ({
                let (t, q, a) = prune_spec(
                    old(self).txs(),
                    old(self).queues(),
                    tx_ids@.map_values(|h: [u8; 32]| h@),
                );
                &&& final(self).txs() == t
                &&& final(self).queues() == q.remove_keys(empty_queues_among(q, a))
                &&& forall|s: Seq<u8>|
                    #[trigger] a.contains(s) && final(self).queues().contains_key(s) ==> pending_consecutive(
                        final(self).queues()[s],
                    )
            }),
            final(self).txs().len() == old(self).txs().len() - old(self).txs().dom().intersect(
                tx_ids@.map_values(|h: [u8; 32]| h@).to_set(),
            ).len(),
    {
        let ghost t0 = self.txs();
        let ghost q0 = self.queues();
        let ghost ids = tx_ids@.map_values(|h: [u8; 32]| h@);
        proof {
            lemma_prune_consistent(t0, q0, ids);
        }
        let mut affected: Vec<[u8; 20]> = Vec::new();
        let mut i: usize = 0;
        proof {
            assert(ids.take(0) =~= Seq::<Seq<u8>>::empty());
            assert(sender_set(affected@) =~= Set::<Seq<u8>>::empty());
        }
        while i < tx_ids.len()
            invariant
                0 <= i <= tx_ids.len(),
                ids == tx_ids@.map_values(|h: [u8; 32]| h@),
                self.hashes_distinct(),
                self.senders_distinct(),
                self.config == old(self).config,
                (self.txs(), self.queues(), sender_set(affected@)) == prune_spec(t0, q0, ids.take(i as int)),
            decreases tx_ids.len() - i,
        {
            proof {
                assert(ids.take(i + 1).drop_last() =~= ids.take(i as int));
                assert(ids.take(i + 1).last() == tx_ids@[i as int]@);
            }
            match self.find_tx(&tx_ids[i]) {
                Some(j) => {
                    let tx = self.remove_tx_at(j);
                    let ghost a0 = affected@;
                    affected.push(tx.sender);
                    proof {
                        lemma_sender_set_push(a0, tx.sender);
                    }
                    match self.find_queue(&tx.sender) {
                        Some(qi) => {
                            self.strip_queue_at(qi, &tx_ids[i]);
                        },
                        None => {},
                    }
                },
                None => {},
            }
            i = i + 1;
        }
        proof {
            assert(ids.take(tx_ids.len() as int) =~= ids);
        }
        let ghost q1 = self.queues();
        let ghost a = sender_set(affected@);
        let mut k: usize = 0;
        proof {
            assert(q1.remove_keys(empty_queues_among(q1, sender_set(affected@.take(0)))) =~= q1);
        }
        while k < affected.len()
            invariant
                0 <= k <= affected.len(),
                self.hashes_distinct(),
                self.senders_distinct(),
                self.config == old(self).config,
                self.txs() == prune_spec(t0, q0, ids).0,
                self.queues() == q1.remove_keys(empty_queues_among(q1, sender_set(affected@.take(k as int)))),
            decreases affected.len() - k,
        {
            let ghost before = empty_queues_among(q1, sender_set(affected@.take(k as int)));
            let ghost after = empty_queues_among(q1, sender_set(affected@.take(k + 1)));
            proof {
                assert(affected@.take(k + 1) =~= affected@.take(k as int).push(affected@[k as int]));
                lemma_sender_set_push(affected@.take(k as int), affected@[k as int]);
            }
            match self.find_queue(&affected[k]) {
                Some(qi) => {
                    if self.by_sender[qi].pending.len() == 0 && self.by_sender[qi].queued.len() == 0 {
                        let ghost l0 = self.by_sender@;
                        proof {
                            lemma_keyed_map_index(queue_seq(l0), queue_key(), qi as int);
                        }
                        self.by_sender.remove(qi);
                        proof {
                            assert(queue_seq(self.by_sender@) =~= queue_seq(l0).remove(qi as int));
                            lemma_keyed_map_remove(queue_seq(l0), queue_key(), qi as int);
                            assert(self.queues() =~= q1.remove_keys(after));
                        }
                    } else {
                        proof {
                            assert(after =~= before);
                        }
                    }
                },
                None => {
                    proof {
                        assert(q1.remove_keys(after) =~= q1.remove_keys(before));
                    }
                },
            }
            k = k + 1;
        }
        proof {
            assert(affected@.take(affected.len() as int) =~= affected@);
            lemma_prune_keeps_runs(t0, q0, ids);
            old(self).lemma_txs_len();
            crate::txpool::pool_laws::lemma_prune_len(t0, q0, ids);
        }
        self.update_counts();
    }

    /// Returns the count of pending (executable) transactions.
    pub fn pending_count(&self) -> (r: usize)
        requires
            self.wf(),
        ensures
            r == self.spec_pending_count(),
    {
        self.pending_count
    }

    /// Returns the count of queued (future nonce) transactions.
    pub fn queued_count(&self) -> (r: usize)
        requires
            self.wf(),
        ensures
            r == self.spec_queued_count(),
    {
        self.queued_count
    }

    /// Returns the total number of transactions in the pool.
    pub fn len(&self) -> (r: usize)
        requires
            self.wf(),
        ensures
            r == self.txs().len(),
    {
        proof { self.lemma_txs_len(); }
        self.by_hash.len()
    }

    /// Returns true if the pool contains no transactions.
    pub fn is_empty(&self) -> (r: bool)
        requires
            self.wf(),
        ensures
            r == (self.txs().len() == 0),
    {
        proof { self.lemma_txs_len(); }
        self.by_hash.len() == 0
    }

    proof fn lemma_txs_len(&self)
        requires
            self.wf(),
        ensures
            self.txs().len() == self.by_hash.len(),
            self.txs().dom().finite(),
    {
        lemma_keyed_map_len(view_seq(self.by_hash@), tx_key());
    }

    /// Checks if a transaction with the given hash exists in the pool.
    pub fn contains(&self, hash: &[u8; 32]) -> (r: bool)
        requires
            self.wf(),
        ensures
            r == self.txs().contains_key(hash@),
    {
        self.find_tx(hash).is_some()
    }

    /// Gets a transaction by its hash.
    pub fn get(&self, hash: &[u8; 32]) -> (r: Option<OrderedTransaction>)
        requires
            self.wf(),
        ensures
            match r {
                Some(t) => self.txs().contains_key(hash@) && t@ == self.txs()[hash@],
                None => !self.txs().contains_key(hash@),
            },
    {
        match self.find_tx(hash) {
            Some(i) => Some(self.by_hash[i].clone()),
            None => None,
        }
    }

    /// Returns all senders with transactions in the pool.
    pub fn senders(&self) -> (r: Vec<[u8; 20]>)
        requires
            self.wf(),
        ensures
            r@.len() == self.queues().len(),
            forall|i: int, j: int| 0 <= i < j < r@.len() ==> (#[trigger] r@[i])@ != (#[trigger] r@[j])@,
            forall|i: int| 0 <= i < r@.len() ==> self.queues().contains_key((#[trigger] r@[i])@),
    {
        let ghost qs = self.queue_list();
        let mut r: Vec<[u8; 20]> = Vec::new();
        let mut i: usize = 0;
        while i < self.by_sender.len()
            invariant
                0 <= i <= self.by_sender.len(),
                qs == self.queue_list(),
                keys_distinct(qs, queue_key()),
                r@.len() == i,
                forall|k: int| 0 <= k < i ==> (#[trigger] r@[k])@ == qs[k].sender,
            decreases self.by_sender.len() - i,
        {
            r.push(self.by_sender[i].sender);
            i = i + 1;
        }
        proof {
            lemma_keyed_map_len(qs, queue_key());
            assert forall|k: int| 0 <= k < r@.len() implies self.queues().contains_key(
                (#[trigger] r@[k])@,
            ) by {
                lemma_keyed_map_index(qs, queue_key(), k);
            }
        }
        r
    }

    /// Removes all transactions from the pool.
    pub fn clear(&mut self)
        ensures
            final(self).wf(),
            final(self).txs() == Map::<Seq<u8>, OrderedTxView>::empty(),
            final(self).queues() == Map::<Seq<u8>, SenderQueueView>::empty(),
            final(self).spec_config() == old(self).spec_config(),
            final(self).spec_pending_count() == 0,
            final(self).spec_queued_count() == 0,
            final(self).pending_txs() == Multiset::<OrderedTxView>::empty(),
    {
        self.by_hash = Vec::new();
        self.by_sender = Vec::new();
        self.pending_count = 0;
        self.queued_count = 0;
        assert(view_seq(self.by_hash@) =~= Seq::<OrderedTxView>::empty());
        assert(self.queue_list() =~= Seq::<SenderQueueView>::empty());
        assert(all_pending(self.queue_list()) =~= Seq::<OrderedTxView>::empty());
        proof {
            let e = Seq::<OrderedTxView>::empty();
            e.to_multiset_ensures();
            assert(e.to_multiset() =~= Multiset::<OrderedTxView>::empty());
        }
    }
}

/// The map from sender to the nonce its next included transaction needs.
pub open spec fn included_map(l: Seq<([u8; 20], u128)>) -> Map<Seq<u8>, int>
    decreases l.len(),
{
    if l.len() == 0 {
        Map::empty()
    } else {
        included_map(l.drop_last()).insert(l.last().0@, l.last().1 as int)
    }
}

/// The recorded next nonce of `sender`, if any.
fn lookup_included(l: &Vec<([u8; 20], u128)>, sender: &[u8; 20]) -> (r: Option<u128>)
    ensures
        match r {
            Some(n) => included_map(l@).contains_key(sender@) && included_map(l@)[sender@] == n as int,
            None => !included_map(l@).contains_key(sender@),
        },
{
    let mut i: usize = l.len();
    assert(l@.take(l.len() as int) =~= l@);
    while i > 0
        invariant
            0 <= i <= l.len(),
            included_map(l@.take(i as int)).contains_key(sender@) == included_map(l@).contains_key(sender@),
            included_map(l@).contains_key(sender@) ==> included_map(l@.take(i as int))[sender@]
                == included_map(l@)[sender@],
        decreases i,
    {
        assert(l@.take(i as int).drop_last() =~= l@.take(i - 1));
        assert(l@.take(i as int).last() == l@[i - 1]);
        if eq_bytes20(&l[i - 1].0, sender) {
            return Some(l[i - 1].1);
        }
        i = i - 1;
    }
    None
}

/// Records the next nonce of `sender`.
fn set_included(l: &mut Vec<([u8; 20], u128)>, sender: [u8; 20], n: u128)
    ensures
        included_map(final(l)@) == included_map(old(l)@).insert(sender@, n as int),
{
    let ghost l0 = l@;
    l.push((sender, n));
    assert(l@.drop_last() =~= l0);
}

/// Whether `hash` is one of `hashes`.
pub fn contains_hash(hashes: &Vec<[u8; 32]>, hash: &[u8; 32]) -> (r: bool)
    ensures
        r == excluded_set(hashes@).contains(hash@),
{
    let mut i: usize = 0;
    while i < hashes.len()
        invariant
            0 <= i <= hashes.len(),
            forall|j: int| 0 <= j < i ==> (#[trigger] hashes@[j])@ != hash@,
        decreases hashes.len() - i,
    {
        if eq_bytes32(&hashes[i], hash) {
            assert(excluded_set(hashes@).contains(hash@));
            return true;
        }
        i = i + 1;
    }
    false
}

/// The senders in a list.
pub open spec fn sender_set(l: Seq<[u8; 20]>) -> Set<Seq<u8>> {
    Set::new(|s: Seq<u8>| exists|i: int| 0 <= i < l.len() && (#[trigger] l[i])@ == s)
}

/// Seconds since the Unix epoch on the system clock
/// (`SystemTime::now().duration_since(UNIX_EPOCH)`), none where the clock is
/// before the epoch. Nothing is claimed of the value: it is the time.
#[verifier::external_body]
fn system_clock_secs() -> Option<u64> {
    std::time::SystemTime::now().duration_since(std::time::UNIX_EPOCH).ok().map(|d| d.as_secs())
}

/// The current Unix time in seconds, zero where the clock is before the
/// epoch.
pub fn current_timestamp() -> (r: u64) {
    match system_clock_secs() {
        Some(s) => s,
        None => 0,
    }
}

/// The ordered transaction that the decoded `tx`, sent by `sender`, becomes
/// when it is received at `timestamp`.
pub open spec fn ordered_view_of(tx: DecodedTx, sender: Seq<u8>, timestamp: u64) -> OrderedTxView {
    OrderedTxView {
        hash: keccak256_digest(tx.encoded@),
        sender,
        nonce: tx.nonce,
        effective_gas_price: spec_effective_gas_price(tx),
        timestamp,
        encoded: tx.encoded@,
    }
}

/// What ordering the decoded `tx`, received at `timestamp`, gives: none
/// where its signature does not recover, else the ordered transaction of
/// its recovered sender.
pub open spec fn ordered_outcome(tx: DecodedTx, timestamp: u64, r: Option<OrderedTransaction>) -> bool {
    match recovered_sender(tx) {
        None => r is None,
        Some(s) => r matches Some(o) && o@ == ordered_view_of(tx, s, timestamp),
    }
}

/// What inserting the decoded `tx`, received at `timestamp`, does to a pool
/// with `txs` and `queues`, giving `txs2`, `queues2` and the report `r`:
/// nothing, reported as not added, where its signature does not recover;
/// else what adding its ordered transaction does, reported as added exactly
/// when it was.
pub open spec fn insert_outcome(
    txs: Map<Seq<u8>, OrderedTxView>,
    queues: Map<Seq<u8>, SenderQueueView>,
    max_txs_per_sender: usize,
    bump_percent: u8,
    tx: DecodedTx,
    timestamp: u64,
    txs2: Map<Seq<u8>, OrderedTxView>,
    queues2: Map<Seq<u8>, SenderQueueView>,
    r: bool,
) -> bool {
    match recovered_sender(tx) {
        None => !r && txs2 == txs && queues2 == queues,
        Some(s) => {
            let (t, q, out) = add_spec(
                txs,
                queues,
                max_txs_per_sender,
                bump_percent,
                ordered_view_of(tx, s, timestamp),
            );
            &&& txs2 == t
            &&& queues2 == q
            &&& r == (out == AddOutcome::Added)
        },
    }
}

/// The ordered transaction for a decoded one received at `timestamp`: its
/// hash is the Keccak-256 of its encoding, its sender the recovered one;
/// none where the signature does not recover.
pub fn ordered_from_decoded(tx: &DecodedTx, timestamp: u64) -> (r: Option<OrderedTransaction>)
    ensures
        match r {
            None => recovered_sender(*tx) is None,
            Some(o) => {
                &&& recovered_sender(*tx) == Some(o.sender@)
                &&& o.hash@ == keccak256_digest(tx.encoded@)
                &&& o.nonce == tx.nonce
                &&& o.effective_gas_price == spec_effective_gas_price(*tx)
                &&& o.timestamp == timestamp
                &&& o.encoded@ == tx.encoded@
            },
        },
        ordered_outcome(*tx, timestamp, r),
{
    let sender = match recover_sender(tx) {
        Some(a) => a,
        None => {
            return None;
        },
    };
    let hash = keccak256(tx.encoded.as_slice());
    Some(
        OrderedTransaction::new(
            hash,
            sender,
            tx.nonce,
            effective_gas_price(tx),
            timestamp,
            tx.encoded.clone(),
        ),
    )
}

/// Decodes raw transaction bytes into an ordered transaction received now;
/// none where the bytes are no envelope or the signature does not recover.
pub fn tx_to_ordered(raw: &Vec<u8>) -> (r: Option<OrderedTransaction>)
    ensures
        !decodes_as_envelope(raw@) ==> r is None,
        decodes_as_envelope(raw@) ==> exists|tx: DecodedTx, timestamp: u64|
            decoded_matches(tx, raw@) && #[trigger] ordered_outcome(tx, timestamp, r),
{
    match decode_transaction(raw.as_slice()) {
        Ok(tx) => {
            let timestamp = current_timestamp();
            let r = ordered_from_decoded(&tx, timestamp);
            assert(decoded_matches(tx, raw@) && ordered_outcome(tx, timestamp, r));
            r
        },
        Err(_) => None,
    }
}

/// Adding a sender to a list adds it to the list's senders.
pub proof fn lemma_sender_set_push(l: Seq<[u8; 20]>, x: [u8; 20])
    ensures
        sender_set(l.push(x)) == sender_set(l).insert(x@),
{
    let n = l.push(x);
    assert forall|s: Seq<u8>| #[trigger] sender_set(n).contains(s) <==> sender_set(l).insert(x@).contains(s) by {
        if sender_set(n).contains(s) {
            let i = choose|i: int| 0 <= i < n.len() && (#[trigger] n[i])@ == s;
            if i < l.len() {
                assert(l[i] == n[i]);
                assert(sender_set(l).contains(s));
            }
        }
        if sender_set(l).contains(s) {
            let i = choose|i: int| 0 <= i < l.len() && (#[trigger] l[i])@ == s;
            assert(n[i] == l[i]);
        }
        if s == x@ {
            assert(n[l.len() as int] == x);
        }
    }
    assert(sender_set(l.push(x)) =~= sender_set(l).insert(x@));
}


/// Appends copies of `v[lo..hi]` to `out`.
fn append_range(out: &mut Vec<OrderedTransaction>, v: &Vec<OrderedTransaction>, lo: usize, hi: usize)
    requires
        lo <= hi <= v.len(),
    ensures
        view_seq(final(out)@) == view_seq(old(out)@) + view_seq(v@).subrange(lo as int, hi as int),
{
    let ghost o0 = view_seq(out@);
    let mut i: usize = lo;
    assert(view_seq(v@).subrange(lo as int, lo as int) =~= Seq::<OrderedTxView>::empty());
    assert(o0 + Seq::<OrderedTxView>::empty() =~= o0);
    while i < hi
        invariant
            lo <= i <= hi <= v.len(),
            view_seq(out@) == o0 + view_seq(v@).subrange(lo as int, i as int),
        decreases hi - i,
    {
        let t = v[i].clone();
        let ghost r0 = out@;
        out.push(t);
        proof {
            lemma_view_seq_push(r0, t);
            assert(view_seq(v@).subrange(lo as int, i + 1) =~= view_seq(v@).subrange(lo as int, i as int).push(t@));
            assert(o0 + view_seq(v@).subrange(lo as int, i + 1) =~= (o0 + view_seq(v@).subrange(lo as int, i as int)).push(t@));
        }
        i = i + 1;
    }
}

/// Brings a queue back to shape after transactions left it (see
/// [`rebase`]).
pub fn rebase_queue(q: SenderQueue) -> (r: SenderQueue)
    ensures
        r@ == rebase(q@),
{
    if q.pending.len() == 0 {
        return q;
    }
    let ghost p = view_seq(q.pending@);
    let start = if q.pending[0].nonce > q.next_nonce {
        q.pending[0].nonce
    } else {
        q.next_nonce
    };
    let mut n: usize = 0;
    loop
        invariant
            0 <= n <= q.pending.len(),
            p == view_seq(q.pending@),
            run_end(p, start as int, n as int) == run_end(p, start as int, 0),
        ensures
            n == run_end(p, start as int, 0),
        decreases q.pending.len() - n,
    {
        if n == q.pending.len() {
            break;
        }
        if q.pending[n].nonce as u128 != start as u128 + n as u128 {
            break;
        }
        n = n + 1;
    }
    let mut pending: Vec<OrderedTransaction> = Vec::new();
    append_range(&mut pending, &q.pending, 0, n);
    let mut queued: Vec<OrderedTransaction> = Vec::new();
    append_range(&mut queued, &q.pending, n, q.pending.len());
    append_range(&mut queued, &q.queued, 0, q.queued.len());
    proof {
        assert(Seq::<OrderedTxView>::empty() + p.subrange(0, n as int) =~= p.take(n as int));
        assert(Seq::<OrderedTxView>::empty() + p.subrange(n as int, p.len() as int) + view_seq(q.queued@).subrange(
            0,
            view_seq(q.queued@).len() as int,
        ) =~= p.skip(n as int) + view_seq(q.queued@));
    }
    SenderQueue { sender: q.sender, next_nonce: start, pending, queued }
}

/// A copy of a list of transactions.
pub fn copy_transactions(v: &Vec<OrderedTransaction>) -> (r: Vec<OrderedTransaction>)
    ensures
        view_seq(r@) == view_seq(v@),
{
    let mut r: Vec<OrderedTransaction> = Vec::new();
    let mut i: usize = 0;
    while i < v.len()
        invariant
            0 <= i <= v.len(),
            view_seq(r@) == view_seq(v@).take(i as int),
        decreases v.len() - i,
    {
        let t = v[i].clone();
        let ghost r0 = r@;
        r.push(t);
        proof {
            lemma_view_seq_push(r0, t);
            assert(view_seq(v@).take(i + 1) =~= view_seq(v@).take(i as int).push(t@));
        }
        i = i + 1;
    }
    assert(view_seq(v@).take(v.len() as int) =~= view_seq(v@));
    r
}

/// Totals never go below zero.
pub proof fn lemma_totals_nonneg(qs: Seq<SenderQueueView>)
    ensures
        total_pending(qs) >= 0,
        total_queued(qs) >= 0,
    decreases qs.len(),
{
    if qs.len() > 0 {
        lemma_totals_nonneg(qs.drop_last());
    }
}

/// A map built from records with distinct keys has one entry per record.
pub proof fn lemma_keyed_map_len<V>(s: Seq<V>, key: spec_fn(V) -> Seq<u8>)
    requires
        keys_distinct(s, key),
    ensures
        keyed_map(s, key).dom().finite(),
        keyed_map(s, key).len() == s.len(),
    decreases s.len(),
{
    if s.len() > 0 {
        crate::keyed::lemma_keys_distinct_drop_last(s, key);
        lemma_keyed_map_len(s.drop_last(), key);
        lemma_keyed_map_dom(s.drop_last(), key, key(s.last()));
        if keyed_map(s.drop_last(), key).contains_key(key(s.last())) {
            let j = choose|j: int| 0 <= j < s.len() - 1 && key(s.drop_last()[j]) == key(s.last());
            assert(s.drop_last()[j] == s[j]);
        }
    }
}

} // verus!
