use kora::txpool::config::PoolConfig;
use kora::txpool::error::TxPoolError;
use kora::txpool::ordering::{OrderedTransaction, SenderQueue};
use kora::txpool::pool::TransactionPool;

struct Gen {
    n: u64,
}

impl Gen {
    fn new() -> Self {
        Gen { n: 1 }
    }

    fn bytes<const N: usize>(&mut self) -> [u8; N] {
        self.n += 1;
        let mut out = [0u8; N];
        out[..8].copy_from_slice(&self.n.to_be_bytes());
        out[N - 1] = 0x5a;
        out
    }

    fn random_b256(&mut self) -> [u8; 32] {
        self.bytes::<32>()
    }

    fn random_address(&mut self) -> [u8; 20] {
        self.bytes::<20>()
    }

    fn make_tx(&mut self, nonce: u64, gas_price: u128) -> OrderedTransaction {
        let hash = self.random_b256();
        let sender = self.random_address();
        OrderedTransaction::new(hash, sender, nonce, gas_price, 0, vec![0x02, hash[7], nonce as u8])
    }

    fn make_ordered_tx(&mut self, sender: [u8; 20], nonce: u64, gas_price: u128) -> OrderedTransaction {
        let hash = self.random_b256();
        OrderedTransaction::new(hash, sender, nonce, gas_price, 0, vec![0x02, hash[7], nonce as u8])
    }
}

#[test]
fn sender_queue_insert_sequential() {
    let mut g = Gen::new();
    let sender = g.random_address();
    let mut queue = SenderQueue::new(sender, 0);

    let tx0 = g.make_tx(0, 100);
    let tx1 = g.make_tx(1, 100);
    let tx2 = g.make_tx(2, 100);

    assert!(queue.insert(tx0).is_none());
    assert!(queue.insert(tx1).is_none());
    assert!(queue.insert(tx2).is_none());

    assert_eq!(queue.pending_count(), 3);
    assert_eq!(queue.queued_count(), 0);
}

#[test]
fn sender_queue_insert_with_gap() {
    let mut g = Gen::new();
    let sender = g.random_address();
    let mut queue = SenderQueue::new(sender, 0);

    let tx0 = g.make_tx(0, 100);
    let tx2 = g.make_tx(2, 100);
    let tx1 = g.make_tx(1, 100);

    assert!(queue.insert(tx0).is_none());
    assert!(queue.insert(tx2).is_none());

    assert_eq!(queue.pending_count(), 1);
    assert_eq!(queue.queued_count(), 1);

    assert!(queue.insert(tx1).is_none());

    assert_eq!(queue.pending_count(), 3);
    assert_eq!(queue.queued_count(), 0);
}

#[test]
fn ordered_transaction_ordering() {
    let mut g = Gen::new();
    let tx1 = g.make_tx(0, 100);
    let tx2 = g.make_tx(0, 200);

    assert!(tx2 < tx1);
}

#[test]
fn sender_queue_replacement_needs_higher_price() {
    let mut g = Gen::new();
    let sender = g.random_address();
    let mut queue = SenderQueue::new(sender, 0);
    assert!(queue.insert(g.make_ordered_tx(sender, 0, 100)).is_none());
    let same_price = g.make_ordered_tx(sender, 0, 100);
    let refused = queue.insert(same_price.clone());
    assert_eq!(refused.map(|t| t.hash), Some(same_price.hash));
    let higher = g.make_ordered_tx(sender, 0, 150);
    let replaced = queue.insert(higher);
    assert_eq!(replaced.map(|t| t.effective_gas_price), Some(100));
    assert_eq!(queue.pending_count(), 1);
}

#[test]
fn sender_queue_remove_confirmed_drops_low_nonces() {
    let mut g = Gen::new();
    let sender = g.random_address();
    let mut queue = SenderQueue::new(sender, 0);
    for n in 0..4 {
        assert!(queue.insert(g.make_ordered_tx(sender, n, 100)).is_none());
    }
    queue.remove_confirmed(1);
    assert_eq!(queue.pending_count(), 2);
    assert_eq!(queue.total_count(), 2);
    assert!(!queue.is_empty());
}

#[test]
fn effective_tip_saturates() {
    let mut g = Gen::new();
    let tx = g.make_tx(0, 100);
    assert_eq!(tx.effective_tip(None), 100);
    assert_eq!(tx.effective_tip(Some(30)), 70);
    assert_eq!(tx.effective_tip(Some(300)), 0);
}

#[test]
fn pool_add_and_pending() {
    let mut g = Gen::new();
    let config = PoolConfig::default();
    let mut pool = TransactionPool::new(config);

    let sender = g.random_address();
    let tx0 = g.make_ordered_tx(sender, 0, 100);
    let tx1 = g.make_ordered_tx(sender, 1, 100);

    pool.add(tx0.clone()).unwrap();
    pool.add(tx1.clone()).unwrap();

    assert_eq!(pool.pending_count(), 2);
    assert_eq!(pool.len(), 2);

    let pending = pool.pending(10);
    assert_eq!(pending.len(), 2);
}

#[test]
fn pool_duplicate_rejected() {
    let mut g = Gen::new();
    let config = PoolConfig::default();
    let mut pool = TransactionPool::new(config);

    let sender = g.random_address();
    let tx = g.make_ordered_tx(sender, 0, 100);
    let tx_dup = tx.clone();

    pool.add(tx).unwrap();
    assert!(matches!(pool.add(tx_dup), Err(TxPoolError::AlreadyExists)));
}

#[test]
fn pool_sender_limit() {
    let mut g = Gen::new();
    let config = PoolConfig::default().with_max_txs_per_sender(2);
    let mut pool = TransactionPool::new(config);

    let sender = g.random_address();
    pool.add(g.make_ordered_tx(sender, 0, 100)).unwrap();
    pool.add(g.make_ordered_tx(sender, 1, 100)).unwrap();

    assert!(matches!(pool.add(g.make_ordered_tx(sender, 2, 100)), Err(TxPoolError::SenderFull(_))));
}

#[test]
fn pool_remove() {
    let mut g = Gen::new();
    let config = PoolConfig::default();
    let mut pool = TransactionPool::new(config);

    let sender = g.random_address();
    let tx = g.make_ordered_tx(sender, 0, 100);
    let hash = tx.hash;

    pool.add(tx).unwrap();
    assert_eq!(pool.len(), 1);

    pool.remove(&hash);
    assert_eq!(pool.len(), 0);
}

#[test]
fn pool_clear() {
    let mut g = Gen::new();
    let config = PoolConfig::default();
    let mut pool = TransactionPool::new(config);

    let sender = g.random_address();
    pool.add(g.make_ordered_tx(sender, 0, 100)).unwrap();
    pool.add(g.make_ordered_tx(sender, 1, 100)).unwrap();

    pool.clear();
    assert!(pool.is_empty());
}

#[test]
fn pool_added_transaction_is_found_again() {
    let mut g = Gen::new();
    let mut pool = TransactionPool::new(PoolConfig::default());
    let tx = g.make_tx(0, 100);
    pool.add(tx.clone()).unwrap();
    assert!(pool.contains(&tx.hash));
    let got = pool.get(&tx.hash).unwrap();
    assert_eq!(got.sender, tx.sender);
    assert_eq!(got.encoded, tx.encoded);
    let removed = pool.remove(&tx.hash).unwrap();
    assert_eq!(removed.hash, tx.hash);
    assert!(!pool.contains(&tx.hash));
    assert!(pool.get(&tx.hash).is_none());
}

#[test]
fn pool_pending_is_served_by_price() {
    let mut g = Gen::new();
    let mut pool = TransactionPool::new(PoolConfig::default());
    pool.add(g.make_tx(0, 100)).unwrap();
    pool.add(g.make_tx(0, 300)).unwrap();
    pool.add(g.make_tx(0, 200)).unwrap();
    let prices: Vec<u128> = pool.pending(10).iter().map(|t| t.effective_gas_price).collect();
    assert_eq!(prices, vec![300, 200, 100]);
    assert_eq!(pool.pending(2).len(), 2);
}

#[test]
fn pool_queued_and_promoted() {
    let mut g = Gen::new();
    let mut pool = TransactionPool::new(PoolConfig::default());
    let sender = g.random_address();
    pool.add(g.make_ordered_tx(sender, 0, 100)).unwrap();
    pool.add(g.make_ordered_tx(sender, 2, 100)).unwrap();
    assert_eq!(pool.pending_count(), 1);
    assert_eq!(pool.queued_count(), 1);
    pool.add(g.make_ordered_tx(sender, 1, 100)).unwrap();
    assert_eq!(pool.pending_count(), 3);
    assert_eq!(pool.queued_count(), 0);
    assert_eq!(pool.pending_for_sender(&sender).len(), 3);
    // A higher price for a pending nonce replaces the transaction.
    let better = g.make_ordered_tx(sender, 0, 900);
    pool.add(better.clone()).unwrap();
    assert_eq!(pool.len(), 3);
    assert!(pool.contains(&better.hash));
    // The same price again does not outbid it.
    assert!(matches!(pool.add(g.make_ordered_tx(sender, 0, 900)), Err(TxPoolError::ReplacementUnderpriced)));
    assert_eq!(pool.senders(), vec![sender]);
}

#[test]
fn pool_replacement_needs_the_configured_bump() {
    let mut g = Gen::new();
    let mut pool = TransactionPool::new(PoolConfig::default());
    let sender = g.random_address();
    let first = g.make_ordered_tx(sender, 0, 100);
    pool.add(first.clone()).unwrap();
    // 109 is less than 10% above 100: refused, nothing changes.
    let low = g.make_ordered_tx(sender, 0, 109);
    assert!(matches!(pool.add(low.clone()), Err(TxPoolError::ReplacementUnderpriced)));
    assert!(pool.contains(&first.hash));
    assert!(!pool.contains(&low.hash));
    assert_eq!(pool.len(), 1);
    // 110 is exactly 10% above: it replaces the first.
    let enough = g.make_ordered_tx(sender, 0, 110);
    pool.add(enough.clone()).unwrap();
    assert!(!pool.contains(&first.hash));
    assert!(pool.contains(&enough.hash));
    assert_eq!(pool.len(), 1);
    assert_eq!(pool.pending_count(), 1);
    // With no bump configured an equal price replaces too.
    let mut flat = TransactionPool::new(PoolConfig::default().with_replacement_bump_percent(0));
    let a = g.make_ordered_tx(sender, 0, 100);
    let b = g.make_ordered_tx(sender, 0, 100);
    flat.add(a.clone()).unwrap();
    flat.add(b.clone()).unwrap();
    assert!(!flat.contains(&a.hash));
    assert!(flat.contains(&b.hash));
}

#[test]
fn pool_remove_confirmed_drops_confirmed_nonces() {
    let mut g = Gen::new();
    let mut pool = TransactionPool::new(PoolConfig::default());
    let sender = g.random_address();
    for n in 0..3 {
        pool.add(g.make_ordered_tx(sender, n, 100)).unwrap();
    }
    pool.remove_confirmed(&sender, 1);
    assert_eq!(pool.len(), 1);
    assert_eq!(pool.pending_for_sender(&sender)[0].nonce, 2);
}

#[test]
fn pool_build_takes_nonces_in_order_and_skips_excluded() {
    let mut g = Gen::new();
    let mut pool = TransactionPool::new(PoolConfig::default());
    let a = g.random_address();
    let b = g.random_address();
    let a0 = g.make_ordered_tx(a, 0, 100);
    let a1 = g.make_ordered_tx(a, 1, 500);
    let b0 = g.make_ordered_tx(b, 0, 200);
    pool.add(a0.clone()).unwrap();
    pool.add(a1.clone()).unwrap();
    pool.add(b0.clone()).unwrap();

    // Candidates are walked once by price: a1 comes first but its sender's
    // expected nonce is still 0, so it is left for a later block.
    let block = pool.build(10, &Vec::new());
    assert_eq!(block, vec![b0.encoded.clone(), a0.encoded.clone()]);

    let limited = pool.build(1, &Vec::new());
    assert_eq!(limited, vec![b0.encoded.clone()]);

    let excluded = pool.build(10, &vec![b0.hash, a0.hash]);
    assert!(excluded.is_empty());
}

#[test]
fn pool_prune_drops_named_transactions_and_empty_senders() {
    let mut g = Gen::new();
    let mut pool = TransactionPool::new(PoolConfig::default());
    let a = g.random_address();
    let b = g.random_address();
    let a0 = g.make_ordered_tx(a, 0, 100);
    let b0 = g.make_ordered_tx(b, 0, 100);
    let b1 = g.make_ordered_tx(b, 1, 100);
    pool.add(a0.clone()).unwrap();
    pool.add(b0.clone()).unwrap();
    pool.add(b1.clone()).unwrap();

    pool.prune(&vec![a0.hash, b0.hash, g.random_b256()]);
    assert!(!pool.contains(&a0.hash));
    assert!(!pool.contains(&b0.hash));
    assert!(pool.contains(&b1.hash));
    assert_eq!(pool.len(), 1);
    assert_eq!(pool.senders(), vec![b]);
}

#[test]
fn pool_insert_refuses_undecodable_bytes() {
    let mut pool = TransactionPool::new(PoolConfig::default());
    assert!(!pool.insert(&vec![0xff; 100]));
    assert!(pool.is_empty());
}

#[test]
fn pool_prune_of_included_prefix_keeps_sender_servable() {
    let mut g = Gen::new();
    let mut pool = TransactionPool::new(PoolConfig::default());
    let a = g.random_address();
    let a0 = g.make_ordered_tx(a, 0, 100);
    let a1 = g.make_ordered_tx(a, 1, 100);
    let a2 = g.make_ordered_tx(a, 2, 100);
    pool.add(a0.clone()).unwrap();
    pool.add(a1.clone()).unwrap();
    pool.add(a2.clone()).unwrap();
    // The first transaction went into a block: the next one is served next.
    pool.prune(&vec![a0.hash]);
    assert_eq!(pool.build(10, &Vec::new()), vec![a1.encoded.clone(), a2.encoded.clone()]);
    assert_eq!(pool.pending_count(), 2);

    // A gap in the middle moves what follows it out of the pending run.
    let mut other = TransactionPool::new(PoolConfig::default());
    let b = g.random_address();
    let b0 = g.make_ordered_tx(b, 0, 100);
    let b1 = g.make_ordered_tx(b, 1, 100);
    let b2 = g.make_ordered_tx(b, 2, 100);
    other.add(b0.clone()).unwrap();
    other.add(b1.clone()).unwrap();
    other.add(b2.clone()).unwrap();
    other.prune(&vec![b1.hash]);
    assert_eq!(other.pending_count(), 1);
    assert_eq!(other.queued_count(), 1);
    assert!(other.contains(&b2.hash));
    assert_eq!(other.build(10, &Vec::new()), vec![b0.encoded.clone()]);
}

#[test]
fn pool_remove_confirmed_drops_queued_ones_too() {
    let mut g = Gen::new();
    let mut pool = TransactionPool::new(PoolConfig::default());
    let sender = g.random_address();
    let t0 = g.make_ordered_tx(sender, 0, 100);
    let t2 = g.make_ordered_tx(sender, 2, 100);
    let t5 = g.make_ordered_tx(sender, 5, 100);
    pool.add(t0.clone()).unwrap();
    pool.add(t2.clone()).unwrap();
    pool.add(t5.clone()).unwrap();
    assert_eq!(pool.queued_count(), 2);
    pool.remove_confirmed(&sender, 2);
    assert!(!pool.contains(&t0.hash));
    assert!(!pool.contains(&t2.hash));
    assert!(pool.contains(&t5.hash));
    assert_eq!(pool.len(), 1);
    assert_eq!(pool.len(), pool.pending_count() + pool.queued_count());
}
