//! The eth namespace's own state and answers: the chain, the block height
//! the node last set, the fixed fee answers, and the transactions submitted
//! through the RPC that the indexed chain does not hold yet. The state
//! provider's lookups and the submission callback are the caller's; their
//! answers are handed in.

use crate::bytes::eq_bytes32;
use crate::keyed::{keyed_map, keys_distinct, lemma_keyed_map_dom, lemma_keyed_map_push, lemma_keyed_map_remove, lemma_keyed_map_update, lemma_keyed_map_index};
use crate::rpc::api::REPORTED_FEE_WEI;
use crate::rpc::error::RpcError;
use crate::rpc::pending::{pending_view, RpcTransaction};
use crate::txpool::envelope::{keccak256_digest, DecodedTx};
use crate::txpool::envelope::{be_value, u256_from_u128};
use std::sync::atomic::{AtomicU64, Ordering};
use std::sync::Arc;
use vstd::prelude::*;

verus! {

/// A pending transaction is keyed by its hash.
pub open spec fn tx_hash_key() -> spec_fn(RpcTransaction) -> Seq<u8> {
    |t: RpcTransaction| t.hash@
}

/// Two transaction records agree in every field.
pub open spec fn same_transaction(a: RpcTransaction, b: RpcTransaction) -> bool {
    &&& a.hash == b.hash
    &&& a.nonce == b.nonce
    &&& a.block_hash == b.block_hash
    &&& a.block_number == b.block_number
    &&& a.transaction_index == b.transaction_index
    &&& a.from == b.from
    &&& a.to == b.to
    &&& a.value == b.value
    &&& a.gas == b.gas
    &&& a.gas_price == b.gas_price
    &&& a.input@ == b.input@
    &&& a.tx_type == b.tx_type
    &&& a.chain_id == b.chain_id
    &&& a.max_fee_per_gas == b.max_fee_per_gas
    &&& a.max_priority_fee_per_gas == b.max_priority_fee_per_gas
    &&& a.v == b.v
    &&& a.r == b.r
    &&& a.s == b.s
}

/// A copy of a transaction record.
pub fn copy_transaction(t: &RpcTransaction) -> (r: RpcTransaction)
    ensures
        same_transaction(r, *t),
{
    RpcTransaction {
        hash: t.hash,
        nonce: t.nonce,
        block_hash: t.block_hash,
        block_number: t.block_number,
        transaction_index: t.transaction_index,
        from: t.from,
        to: t.to,
        value: t.value,
        gas: t.gas,
        gas_price: t.gas_price,
        input: t.input.clone(),
        tx_type: t.tx_type,
        chain_id: t.chain_id,
        max_fee_per_gas: t.max_fee_per_gas,
        max_priority_fee_per_gas: t.max_priority_fee_per_gas,
        v: t.v,
        r: t.r,
        s: t.s,
    }
}

/// The protocol version the eth namespace reports.
pub open spec fn protocol_version_text() -> Seq<char> {
    "0x44"@
}

/// Ethereum API state: the chain id, the block height the node last set,
/// and the transactions submitted through the RPC and not yet indexed,
/// each hash once.
#[derive(Debug)]
pub struct EthApiImpl {
    chain_id: u64,
    block_height: Arc<AtomicU64>,
    pending_txs: Vec<RpcTransaction>,
}

impl EthApiImpl {
    /// Each pending hash occurs once.
    pub closed spec fn wf(&self) -> bool {
        keys_distinct(self.pending_txs@, tx_hash_key())
    }

    /// The chain id.
    pub closed spec fn spec_chain_id(&self) -> u64 {
        self.chain_id
    }

    /// The pending transactions by hash.
    pub closed spec fn pending_view(&self) -> Map<Seq<u8>, RpcTransaction> {
        keyed_map(self.pending_txs@, tx_hash_key())
    }

    /// Create a new Ethereum API implementation, with nothing pending.
    pub fn new(chain_id: u64) -> (r: Self)
        ensures
            r.wf(),
            r.spec_chain_id() == chain_id,
            r.pending_view() == Map::<Seq<u8>, RpcTransaction>::empty(),
    {
        EthApiImpl { chain_id, block_height: Arc::new(AtomicU64::new(0)), pending_txs: Vec::new() }
    }

    /// The shared counter that holds the block height.
    pub closed spec fn height_counter(&self) -> Arc<AtomicU64> {
        self.block_height
    }

    /// Get a handle to update the block height: the API's own shared
    /// counter.
    pub fn block_height_handle(&self) -> (h: Arc<AtomicU64>)
        ensures
            h == self.height_counter(),
    {
        self.block_height.clone()
    }

    /// Update the current block height.
    pub fn set_block_height(&self, height: u64) {
        self.block_height.store(height, Ordering::Relaxed);
    }

    /// Returns the chain ID.
    pub fn chain_id(&self) -> (c: u64)
        ensures
            c == self.spec_chain_id(),
    {
        self.chain_id
    }

    /// Returns the current block number: the state provider's, else the
    /// height the node last set.
    pub fn block_number(&self, provider_height: Option<u64>) -> (n: u64)
        ensures
            provider_height matches Some(h) ==> n == h,
    {
        match provider_height {
            Some(h) => h,
            None => self.block_height.load(Ordering::Relaxed),
        }
    }

    /// The gas price the node reports: one gwei.
    pub fn gas_price(&self) -> (p: [u8; 32])
        ensures
            be_value(p@) == REPORTED_FEE_WEI,
    {
        u256_from_u128(REPORTED_FEE_WEI as u128)
    }

    /// The priority fee the node suggests: one gwei.
    pub fn max_priority_fee_per_gas(&self) -> (p: [u8; 32])
        ensures
            be_value(p@) == REPORTED_FEE_WEI,
    {
        u256_from_u128(REPORTED_FEE_WEI as u128)
    }

    /// The node manages no accounts.
    pub fn accounts(&self) -> (a: Vec<[u8; 20]>)
        ensures
            a@.len() == 0,
    {
        Vec::new()
    }

    /// The protocol version.
    pub fn protocol_version(&self) -> (s: String)
        ensures
            s@ == protocol_version_text(),
    {
        String::from_str("0x44")
    }

    /// The node reports that it is not syncing.
    pub fn syncing(&self) -> (r: bool)
        ensures
            !r,
    {
        false
    }

    fn pending_index(&self, hash: &[u8; 32]) -> (r: Option<usize>)
        requires
            self.wf(),
        ensures
            match r {
                Some(i) => i < self.pending_txs.len() && self.pending_txs[i as int].hash@ == hash@,
                None => !self.pending_view().contains_key(hash@),
            },
    {
        let mut i: usize = 0;
        while i < self.pending_txs.len()
            invariant
                0 <= i <= self.pending_txs.len(),
                forall|j: int| 0 <= j < i ==> self.pending_txs[j].hash@ != hash@,
            decreases self.pending_txs.len() - i,
        {
            if eq_bytes32(&self.pending_txs[i].hash, hash) {
                return Some(i);
            }
            assert(self.pending_txs[i as int].hash@ != hash@);
            i = i + 1;
        }
        proof {
            lemma_keyed_map_dom(self.pending_txs@, tx_hash_key(), hash@);
        }
        None
    }

    /// Records a submitted transaction as pending under its hash (the hash
    /// of the raw bytes), replacing an earlier record of the same hash, and
    /// returns the hash.
    pub fn record_pending(&mut self, tx: RpcTransaction) -> (h: [u8; 32])
        requires
            old(self).wf(),
        ensures
            final(self).wf(),
            h == tx.hash,
            final(self).pending_view() == old(self).pending_view().insert(tx.hash@, tx),
            final(self).spec_chain_id() == old(self).spec_chain_id(),
    {
        let h = tx.hash;
        match self.pending_index(&h) {
            Some(i) => {
                proof {
                    lemma_keyed_map_update(self.pending_txs@, tx_hash_key(), i as int, tx);
                }
                self.pending_txs.set(i, tx);
            },
            None => {
                proof {
                    lemma_keyed_map_push(self.pending_txs@, tx_hash_key(), tx);
                }
                self.pending_txs.push(tx);
            },
        }
        h
    }

    /// Ends a submission once the node's submit hook has answered for the
    /// bytes behind `pending`: on success the transaction is recorded as
    /// pending and its hash returned; a refusal is returned as it is, and
    /// nothing is recorded.
    pub fn finish_submission(&mut self, pending: RpcTransaction, submitted: Result<(), RpcError>) -> (r: Result<
        [u8; 32],
        RpcError,
    >)
        requires
            old(self).wf(),
        ensures
            final(self).wf(),
            final(self).spec_chain_id() == old(self).spec_chain_id(),
            match submitted {
                Ok(()) => r == Ok::<[u8; 32], RpcError>(pending.hash) && final(self).pending_view()
                    == old(self).pending_view().insert(pending.hash@, pending),
                Err(e) => r == Err::<[u8; 32], RpcError>(e) && final(self).pending_view() == old(
                    self,
                ).pending_view(),
            },
    {
        match submitted {
            Ok(()) => Ok(self.record_pending(pending)),
            Err(e) => Err(e),
        }
    }

    /// The pending transaction with this hash, if any.
    pub fn pending_transaction(&self, hash: &[u8; 32]) -> (r: Option<&RpcTransaction>)
        requires
            self.wf(),
        ensures
            match r {
                Some(t) => self.pending_view().contains_key(hash@) && *t == self.pending_view()[hash@],
                None => !self.pending_view().contains_key(hash@),
            },
    {
        match self.pending_index(hash) {
            Some(i) => {
                proof {
                    lemma_keyed_map_index(self.pending_txs@, tx_hash_key(), i as int);
                }
                Some(&self.pending_txs[i])
            },
            None => None,
        }
    }

    /// Answers a lookup by hash: the indexed chain's transaction if it has
    /// one (the pending record is then dropped), else the pending record.
    pub fn transaction_by_hash(&mut self, hash: &[u8; 32], indexed: Option<RpcTransaction>) -> (r: Option<
        RpcTransaction,
    >)
        requires
            old(self).wf(),
        ensures
            final(self).wf(),
            final(self).spec_chain_id() == old(self).spec_chain_id(),
            match indexed {
                Some(t) => r == Some(t) && final(self).pending_view() == old(self).pending_view().remove(hash@),
                None => {
                    &&& final(self).pending_view() == old(self).pending_view()
                    &&& match r {
                        Some(t) => old(self).pending_view().contains_key(hash@) && same_transaction(
                            t,
                            old(self).pending_view()[hash@],
                        ),
                        None => !old(self).pending_view().contains_key(hash@),
                    }
                },
            },
    {
        match indexed {
            Some(t) => {
                match self.pending_index(hash) {
                    Some(i) => {
                        proof {
                            lemma_keyed_map_remove(self.pending_txs@, tx_hash_key(), i as int);
                        }
                        self.pending_txs.remove(i);
                    },
                    None => {
                        assert(self.pending_view().remove(hash@) =~= self.pending_view());
                    },
                }
                Some(t)
            },
            None => match self.pending_transaction(hash) {
                Some(t) => Some(copy_transaction(t)),
                None => None,
            },
        }
    }
}

/// A submission is visible before it is included: once the pending view of
/// submitted bytes (decoded as `tx`, signed by `from`) is recorded, a lookup
/// by the hash of the bytes that the indexed chain does not answer finds a
/// record under that hash, with the transaction's nonce and no block.
pub proof fn lemma_pending_submission_visible(
    before: EthApiImpl,
    after: EthApiImpl,
    t: RpcTransaction,
    tx: DecodedTx,
    from: Seq<u8>,
    data: Seq<u8>,
)
    requires
        pending_view(t, tx, from, keccak256_digest(data)),
        after.pending_view() == before.pending_view().insert(t.hash@, t),
    ensures
        after.pending_view().contains_key(keccak256_digest(data)),
        forall|r: RpcTransaction|
            #[trigger] same_transaction(r, after.pending_view()[keccak256_digest(data)]) ==> {
                &&& r.hash@ == keccak256_digest(data)
                &&& r.nonce == tx.nonce
                &&& r.block_hash is None
                &&& r.block_number is None
                &&& r.transaction_index is None
            },
{
}

/// A submission can be read back: once recorded as pending, a lookup by its
/// hash that the indexed chain does not answer gives the same record.
pub proof fn lemma_submission_read_back(before: EthApiImpl, after: EthApiImpl, tx: RpcTransaction)
    requires
        after.pending_view() == before.pending_view().insert(tx.hash@, tx),
    ensures
        after.pending_view().contains_key(tx.hash@),
        after.pending_view()[tx.hash@] == tx,
        forall|h: Seq<u8>| h != tx.hash@ ==> after.pending_view().get(h) == before.pending_view().get(h),
{
}

/// Once the indexed chain answers for a hash, its pending record is gone:
/// a later lookup that the chain does not answer finds nothing.
pub proof fn lemma_indexed_drops_pending(before: EthApiImpl, after: EthApiImpl, hash: Seq<u8>)
    requires
        after.pending_view() == before.pending_view().remove(hash),
    ensures
        !after.pending_view().contains_key(hash),
{
}

} // verus!
