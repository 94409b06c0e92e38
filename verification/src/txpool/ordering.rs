//! Transactions with ordering metadata, and the per-sender nonce queue.

use vstd::multiset::Multiset;
use vstd::prelude::*;

verus! {

/// A transaction with ordering metadata for pool management.
///
/// The transaction itself is carried as its network encoding, which is what
/// block building hands on.
#[derive(Debug)]
pub struct OrderedTransaction {
    /// Transaction hash.
    pub hash: [u8; 32],
    /// Sender address recovered from the signature.
    pub sender: [u8; 20],
    /// Transaction nonce.
    pub nonce: u64,
    /// Effective gas price for ordering.
    pub effective_gas_price: u128,
    /// Timestamp when the transaction was received.
    pub timestamp: u64,
    /// The transaction's network encoding.
    pub encoded: Vec<u8>,
}

/// Mathematical model of an [`OrderedTransaction`].
pub struct OrderedTxView {
    pub hash: Seq<u8>,
    pub sender: Seq<u8>,
    pub nonce: u64,
    pub effective_gas_price: u128,
    pub timestamp: u64,
    pub encoded: Seq<u8>,
}

impl View for OrderedTransaction {
    type V = OrderedTxView;

    open spec fn view(&self) -> OrderedTxView {
        OrderedTxView {
            hash: self.hash@,
            sender: self.sender@,
            nonce: self.nonce,
            effective_gas_price: self.effective_gas_price,
            timestamp: self.timestamp,
            encoded: self.encoded@,
        }
    }
}

/// The models of a sequence of transactions.
pub open spec fn view_seq(s: Seq<OrderedTransaction>) -> Seq<OrderedTxView> {
    s.map_values(|t: OrderedTransaction| t@)
}

/// The model of an optional transaction.
pub open spec fn opt_view(o: Option<OrderedTransaction>) -> Option<OrderedTxView> {
    match o {
        Some(t) => Some(t@),
        None => None,
    }
}

pub proof fn lemma_view_seq_push(s: Seq<OrderedTransaction>, t: OrderedTransaction)
    ensures
        view_seq(s.push(t)) == view_seq(s).push(t@),
{
    assert(view_seq(s.push(t)) =~= view_seq(s).push(t@));
}

pub proof fn lemma_view_seq_insert(s: Seq<OrderedTransaction>, i: int, t: OrderedTransaction)
    requires
        0 <= i <= s.len(),
    ensures
        view_seq(s.insert(i, t)) == view_seq(s).insert(i, t@),
{
    s.insert_ensures(i, t);
    view_seq(s).insert_ensures(i, t@);
    assert(view_seq(s.insert(i, t)) =~= view_seq(s).insert(i, t@));
}

pub proof fn lemma_view_seq_remove(s: Seq<OrderedTransaction>, i: int)
    requires
        0 <= i < s.len(),
    ensures
        view_seq(s.remove(i)) == view_seq(s).remove(i),
{
    s.remove_ensures(i);
    view_seq(s).remove_ensures(i);
    assert(view_seq(s.remove(i)) =~= view_seq(s).remove(i));
}

impl Clone for OrderedTransaction {
    fn clone(&self) -> (r: Self)
        ensures
            r@ == self@,
    {
        let encoded = self.encoded.clone();
        assert(encoded@ =~= self.encoded@);
        OrderedTransaction {
            hash: self.hash,
            sender: self.sender,
            nonce: self.nonce,
            effective_gas_price: self.effective_gas_price,
            timestamp: self.timestamp,
            encoded,
        }
    }
}

/// The tip left over from the effective gas price once the base fee is paid.
pub open spec fn effective_tip_spec(price: u128, base_fee: Option<u128>) -> u128 {
    match base_fee {
        Some(base) => if price >= base { (price - base) as u128 } else { 0 },
        None => price,
    }
}

impl OrderedTransaction {
    /// Creates a new ordered transaction.
    pub fn new(
        hash: [u8; 32],
        sender: [u8; 20],
        nonce: u64,
        effective_gas_price: u128,
        timestamp: u64,
        encoded: Vec<u8>,
    ) -> (r: Self)
        ensures
            r.hash == hash,
            r.sender == sender,
            r.nonce == nonce,
            r.effective_gas_price == effective_gas_price,
            r.timestamp == timestamp,
            r.encoded@ == encoded@,
    {
        OrderedTransaction { hash, sender, nonce, effective_gas_price, timestamp, encoded }
    }

    /// Calculates the effective tip given a base fee (saturating at zero).
    pub fn effective_tip(&self, base_fee: Option<u128>) -> (r: u128)
        ensures
            r == effective_tip_spec(self.effective_gas_price, base_fee),
    {
        match base_fee {
            Some(base) => self.effective_gas_price.saturating_sub(base),
            None => self.effective_gas_price,
        }
    }
}

/// Per-sender queue managing nonce-ordered transactions.
#[derive(Debug)]
pub struct SenderQueue {
    /// Sender address.
    pub sender: [u8; 20],
    /// Next expected nonce for pending transactions.
    pub next_nonce: u64,
    /// Executable transactions with consecutive nonces.
    pub pending: Vec<OrderedTransaction>,
    /// Future transactions waiting for nonce gaps to fill.
    pub queued: Vec<OrderedTransaction>,
}

/// Mathematical model of a [`SenderQueue`].
pub struct SenderQueueView {
    pub sender: Seq<u8>,
    pub next_nonce: u64,
    pub pending: Seq<OrderedTxView>,
    pub queued: Seq<OrderedTxView>,
}

impl View for SenderQueue {
    type V = SenderQueueView;

    open spec fn view(&self) -> SenderQueueView {
        SenderQueueView {
            sender: self.sender@,
            next_nonce: self.next_nonce,
            pending: view_seq(self.pending@),
            queued: view_seq(self.queued@),
        }
    }
}

/// The nonce that the next executable transaction must carry.
pub open spec fn expected_nonce(q: SenderQueueView) -> int {
    q.next_nonce + q.pending.len()
}

/// Index of the first queued transaction whose nonce is at least `nonce`,
/// searching from index `i` (the length if there is none).
pub open spec fn first_at_least_from(s: Seq<OrderedTxView>, nonce: u64, i: int) -> int
    decreases s.len() - i,
{
    if i >= s.len() {
        s.len() as int
    } else if s[i].nonce >= nonce {
        i
    } else {
        first_at_least_from(s, nonce, i + 1)
    }
}

/// Where a future transaction is placed in the queued list.
pub open spec fn queued_position(s: Seq<OrderedTxView>, nonce: u64) -> int {
    first_at_least_from(s, nonce, 0)
}

/// Moves queued transactions to the pending list while the first of them
/// carries the next expected nonce.
pub open spec fn promote(next_nonce: u64, pending: Seq<OrderedTxView>, queued: Seq<OrderedTxView>) -> (
    Seq<OrderedTxView>,
    Seq<OrderedTxView>,
)
    decreases queued.len(),
{
    if queued.len() > 0 && queued[0].nonce == next_nonce + pending.len() {
        promote(next_nonce, pending.push(queued[0]), queued.drop_first())
    } else {
        (pending, queued)
    }
}

/// The queue after inserting `tx`, and the transaction handed back: `tx`
/// itself when it is rejected, the displaced transaction when `tx` replaces
/// one, and nothing when `tx` was simply added.
pub open spec fn insert_spec(q: SenderQueueView, tx: OrderedTxView) -> (SenderQueueView, Option<OrderedTxView>) {
    if tx.nonce < q.next_nonce {
        (q, Some(tx))
    } else if tx.nonce == expected_nonce(q) {
        let (p, qd) = promote(q.next_nonce, q.pending.push(tx), q.queued);
        (SenderQueueView { pending: p, queued: qd, ..q }, None)
    } else if tx.nonce > expected_nonce(q) {
        (SenderQueueView { queued: q.queued.insert(queued_position(q.queued, tx.nonce), tx), ..q }, None)
    } else {
        let idx = tx.nonce - q.next_nonce;
        if tx.effective_gas_price > q.pending[idx].effective_gas_price {
            (SenderQueueView { pending: q.pending.update(idx, tx), ..q }, Some(q.pending[idx]))
        } else {
            (q, Some(tx))
        }
    }
}

/// Keeps the transactions whose nonce is above `confirmed`.
pub open spec fn nonce_above(confirmed: u64) -> spec_fn(OrderedTxView) -> bool {
    |t: OrderedTxView| t.nonce > confirmed
}

/// The queue after removing everything up to and including `confirmed`.
pub open spec fn remove_confirmed_spec(q: SenderQueueView, confirmed: u64) -> SenderQueueView {
    SenderQueueView {
        pending: q.pending.filter(nonce_above(confirmed)),
        queued: q.queued.filter(nonce_above(confirmed)),
        next_nonce: if confirmed >= q.next_nonce { (confirmed + 1) as u64 } else { q.next_nonce },
        ..q
    }
}

/// The shape a queue keeps as long as only `insert` and `remove_confirmed`
/// change it: pending nonces run consecutively from `next_nonce`, and queued
/// nonces never decrease.
pub open spec fn queue_wf(q: SenderQueueView) -> bool {
    &&& forall|i: int| 0 <= i < q.pending.len() ==> #[trigger] q.pending[i].nonce == q.next_nonce + i
    &&& queued_sorted(q.queued)
}

/// Queued nonces never decrease.
pub open spec fn queued_sorted(s: Seq<OrderedTxView>) -> bool {
    forall|i: int, j: int| 0 <= i <= j < s.len() ==> #[trigger] s[i].nonce <= #[trigger] s[j].nonce
}

/// All transactions held by a queue.
pub open spec fn queue_contents(q: SenderQueueView) -> Multiset<OrderedTxView> {
    (q.pending + q.queued).to_multiset()
}

impl SenderQueue {
    /// Creates a new, empty sender queue.
    pub fn new(sender: [u8; 20], initial_nonce: u64) -> (q: Self)
        ensures
            q@ == (SenderQueueView {
                sender: sender@,
                next_nonce: initial_nonce,
                pending: Seq::empty(),
                queued: Seq::empty(),
            }),
    {
        let q = SenderQueue { sender, next_nonce: initial_nonce, pending: Vec::new(), queued: Vec::new() };
        assert(view_seq(q.pending@) =~= Seq::<OrderedTxView>::empty());
        assert(view_seq(q.queued@) =~= Seq::<OrderedTxView>::empty());
        q
    }

    /// Inserts a transaction into the queue.
    ///
    /// Returns the transaction that did not end up in the queue: `tx` itself
    /// when its nonce is already used up or it does not outbid the pending
    /// transaction with its nonce, or the pending transaction that `tx`
    /// replaced. Returns `None` when `tx` was added.
    pub fn insert(&mut self, tx: OrderedTransaction) -> (r: Option<OrderedTransaction>)
        ensures
            (final(self)@, opt_view(r)) == insert_spec(old(self)@, tx@),
    {
        let expected: u128 = self.next_nonce as u128 + self.pending.len() as u128;
        if tx.nonce < self.next_nonce {
            return Some(tx);
        }
        if tx.nonce as u128 == expected {
            let ghost p0 = self.pending@;
            self.pending.push(tx);
            proof { lemma_view_seq_push(p0, tx); }
            self.promote_queued();
            None
        } else if tx.nonce as u128 > expected {
            let pos = Self::queued_position(&self.queued, tx.nonce);
            let ghost q0 = self.queued@;
            self.queued.insert(pos, tx);
            proof { lemma_view_seq_insert(q0, pos as int, tx); }
            None
        } else {
            let idx = (tx.nonce - self.next_nonce) as usize;
            if tx.effective_gas_price > self.pending[idx].effective_gas_price {
                let ghost p0 = self.pending@;
                let old_tx = self.pending.remove(idx);
                proof { lemma_view_seq_remove(p0, idx as int); }
                let ghost p1 = self.pending@;
                self.pending.insert(idx, tx);
                proof {
                    lemma_view_seq_insert(p1, idx as int, tx);
                    assert(view_seq(self.pending@) =~= view_seq(p0).update(idx as int, tx@));
                }
                Some(old_tx)
            } else {
                Some(tx)
            }
        }
    }

    /// Puts `tx` in place of the pending transaction at `idx` and hands that
    /// one back.
    pub(crate) fn replace_pending(&mut self, idx: usize, tx: OrderedTransaction) -> (r: OrderedTransaction)
        requires
            idx < old(self).pending.len(),
        ensures
            r@ == old(self)@.pending[idx as int],
            final(self)@ == (SenderQueueView { pending: old(self)@.pending.update(idx as int, tx@), ..old(self)@ }),
    {
        let ghost p0 = self.pending@;
        let old_tx = self.pending.remove(idx);
        proof { lemma_view_seq_remove(p0, idx as int); }
        let ghost p1 = self.pending@;
        self.pending.insert(idx, tx);
        proof {
            lemma_view_seq_insert(p1, idx as int, tx);
            assert(view_seq(self.pending@) =~= view_seq(p0).update(idx as int, tx@));
        }
        old_tx
    }

    /// Index at which a transaction with `nonce` joins the queued list.
    fn queued_position(queued: &Vec<OrderedTransaction>, nonce: u64) -> (p: usize)
        ensures
            p == queued_position(view_seq(queued@), nonce),
            p <= queued.len(),
    {
        let ghost s = view_seq(queued@);
        let mut i: usize = 0;
        while i < queued.len()
            invariant
                0 <= i <= queued.len(),
                s == view_seq(queued@),
                queued_position(s, nonce) == first_at_least_from(s, nonce, i as int),
            decreases queued.len() - i,
        {
            if queued[i].nonce >= nonce {
                return i;
            }
            i = i + 1;
        }
        i
    }

    /// Moves queued transactions to pending while they carry the next nonce.
    fn promote_queued(&mut self)
        ensures
            final(self).sender == old(self).sender,
            final(self).next_nonce == old(self).next_nonce,
            (view_seq(final(self).pending@), view_seq(final(self).queued@)) == promote(
                old(self).next_nonce,
                view_seq(old(self).pending@),
                view_seq(old(self).queued@),
            ),
    {
        loop
            invariant
                self.sender == old(self).sender,
                self.next_nonce == old(self).next_nonce,
                promote(self.next_nonce, view_seq(self.pending@), view_seq(self.queued@)) == promote(
                    old(self).next_nonce,
                    view_seq(old(self).pending@),
                    view_seq(old(self).queued@),
                ),
            decreases self.queued.len(),
        {
            if self.queued.len() == 0 {
                return;
            }
            if self.queued[0].nonce as u128 != self.next_nonce as u128 + self.pending.len() as u128 {
                return;
            }
            let ghost p0 = self.pending@;
            let ghost q0 = self.queued@;
            let tx = self.queued.remove(0);
            self.pending.push(tx);
            proof {
                lemma_view_seq_push(p0, tx);
                lemma_view_seq_remove(q0, 0);
                assert(view_seq(q0).remove(0) =~= view_seq(q0).drop_first());
            }
        }
    }

    /// Removes transactions with nonces up to and including `confirmed_nonce`,
    /// and moves the next expected nonce past it.
    pub fn remove_confirmed(&mut self, confirmed_nonce: u64)
        requires
            confirmed_nonce < u64::MAX,
        ensures
            final(self)@ == remove_confirmed_spec(old(self)@, confirmed_nonce),
    {
        let pending = retain_nonce_above(&self.pending, confirmed_nonce);
        let queued = retain_nonce_above(&self.queued, confirmed_nonce);
        self.pending = pending;
        self.queued = queued;
        if confirmed_nonce >= self.next_nonce {
            self.next_nonce = confirmed_nonce + 1;
        }
    }

    /// Returns the count of pending transactions.
    pub fn pending_count(&self) -> (r: usize)
        ensures
            r == self@.pending.len(),
    {
        self.pending.len()
    }

    /// Returns the count of queued transactions.
    pub fn queued_count(&self) -> (r: usize)
        ensures
            r == self@.queued.len(),
    {
        self.queued.len()
    }

    /// Returns the total count of transactions.
    pub fn total_count(&self) -> (r: usize)
        requires
            self.pending.len() + self.queued.len() <= usize::MAX,
        ensures
            r == self@.pending.len() + self@.queued.len(),
    {
        self.pending.len() + self.queued.len()
    }

    /// Returns true if the queue has no transactions.
    pub fn is_empty(&self) -> (r: bool)
        ensures
            r == (self@.pending.len() == 0 && self@.queued.len() == 0),
    {
        self.pending.len() == 0 && self.queued.len() == 0
    }
}

/// The transactions of `v` whose nonce is above `confirmed`, in order.
pub fn retain_nonce_above(v: &Vec<OrderedTransaction>, confirmed: u64) -> (r: Vec<OrderedTransaction>)
    ensures
        view_seq(r@) == view_seq(v@).filter(nonce_above(confirmed)),
{
    let ghost s = view_seq(v@);
    let mut r: Vec<OrderedTransaction> = Vec::new();
    let mut i: usize = 0;
    assert(s.take(0) =~= Seq::<OrderedTxView>::empty());
    assert(view_seq(r@) =~= Seq::<OrderedTxView>::empty());
    proof { reveal(Seq::filter); }
    while i < v.len()
        invariant
            0 <= i <= v.len(),
            s == view_seq(v@),
            view_seq(r@) == s.take(i as int).filter(nonce_above(confirmed)),
        decreases v.len() - i,
    {
        assert(s.take(i + 1) =~= s.take(i as int).push(s[i as int]));
        proof { s.take(i as int).lemma_filter_push(s[i as int], nonce_above(confirmed)); }
        if v[i].nonce > confirmed {
            let t = v[i].clone();
            let ghost r0 = r@;
            r.push(t);
            proof { lemma_view_seq_push(r0, t); }
        }
        i = i + 1;
    }
    assert(s.take(v.len() as int) =~= s);
    r
}

} // verus!
