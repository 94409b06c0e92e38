//! What the eth, net and web3 namespaces compute: the fee history window,
//! the network version and Keccak-256 of call data.

use crate::rpc::types::{BlockNumberOrTag, BlockTag};
use crate::text::{decimal, decimal_string};
use crate::txpool::envelope::{keccak256, keccak256_digest};
use std::sync::atomic::{AtomicU64, Ordering};
use std::sync::Arc;
use vstd::prelude::*;

verus! {

/// At most this many blocks are reported by a fee history.
pub const MAX_FEE_HISTORY_BLOCKS: u64 = 1024;

/// The base fee and priority fee the node reports: one gwei.
pub const REPORTED_FEE_WEI: u64 = 1_000_000_000;

/// The blocks a fee history covers: `count` blocks ending at the newest.
#[derive(Clone, Copy, Debug, PartialEq, Eq)]
pub struct FeeWindow {
    /// Oldest block number.
    pub oldest_block: u64,
    /// Number of blocks.
    pub count: u64,
}

/// The newest block a fee history names: a number (capped at the head) or,
/// for a tag, the head.
pub open spec fn newest_block_of(newest: BlockNumberOrTag, head: u64) -> u64 {
    match newest {
        BlockNumberOrTag::Number(n) => if n < head {
            n
        } else {
            head
        },
        _ => head,
    }
}

/// The window a fee history request covers, as a value: the requested
/// count capped at 1024 and at the blocks that exist up to the newest one.
pub open spec fn fee_window(block_count: u64, newest_block: BlockNumberOrTag, head: u64) -> FeeWindow {
    let newest = newest_block_of(newest_block, head);
    let requested = if block_count < MAX_FEE_HISTORY_BLOCKS {
        block_count
    } else {
        MAX_FEE_HISTORY_BLOCKS
    };
    let available: u64 = if newest == u64::MAX {
        u64::MAX
    } else {
        (newest + 1) as u64
    };
    let count: u64 = if requested < available {
        requested
    } else {
        available
    };
    FeeWindow { oldest_block: (available - count) as u64, count }
}

/// One past a block number, saturating at `u64::MAX`: the end of a window
/// whose newest block is `b`.
pub open spec fn block_end(b: u64) -> int {
    if b == u64::MAX {
        u64::MAX as int
    } else {
        b + 1
    }
}

/// The window of a fee history request: at most 1024 blocks, no more than
/// exist up to the newest block, ending at the newest block.
pub fn fee_history_window(block_count: u64, newest_block: BlockNumberOrTag, head: u64) -> (w: FeeWindow)
    ensures
        w == fee_window(block_count, newest_block, head),
        !(newest_block is Number) ==> ({
            let requested = if block_count < MAX_FEE_HISTORY_BLOCKS {
                block_count
            } else {
                MAX_FEE_HISTORY_BLOCKS
            };
            &&& w.count == (if requested < block_end(head) {
                requested as int
            } else {
                block_end(head)
            })
            &&& w.oldest_block + w.count == block_end(head)
        }),
        ({
            let newest = newest_block_of(newest_block, head);
            let requested = if block_count < MAX_FEE_HISTORY_BLOCKS {
                block_count
            } else {
                MAX_FEE_HISTORY_BLOCKS
            };
            let available = if newest == u64::MAX {
                u64::MAX as int
            } else {
                newest + 1
            };
            &&& w.count == if requested < available {
                requested as int
            } else {
                available
            }
            &&& w.oldest_block == available - w.count
        }),
        w.count <= MAX_FEE_HISTORY_BLOCKS,
        w.count > 0 ==> w.oldest_block <= newest_block_of(newest_block, head),
{
    let newest = match newest_block {
        BlockNumberOrTag::Number(n) => if n < head {
            n
        } else {
            head
        },
        _ => head,
    };
    let requested = if block_count < MAX_FEE_HISTORY_BLOCKS {
        block_count
    } else {
        MAX_FEE_HISTORY_BLOCKS
    };
    let available = newest.saturating_add(1);
    let count = if requested < available {
        requested
    } else {
        available
    };
    FeeWindow { oldest_block: available - count, count }
}

/// For every block tag, the newest block of a fee history is the head: a
/// tagged request covers the same window as one for `latest`, and as one
/// that names the head by number.
pub proof fn lemma_fee_window_tag_is_head(block_count: u64, tag: BlockTag, head: u64)
    ensures
        fee_window(block_count, BlockNumberOrTag::Tag(tag), head) == fee_window(
            block_count,
            BlockNumberOrTag::Latest,
            head,
        ),
        fee_window(block_count, BlockNumberOrTag::Tag(tag), head) == fee_window(
            block_count,
            BlockNumberOrTag::Number(head),
            head,
        ),
{
}

/// A fee history window ends at its newest block (the head for a tag or
/// `latest`, a number capped at the head otherwise): its oldest block plus
/// its count is one past that block, and it holds as many blocks as were
/// asked for, up to 1024 and up to the blocks that exist.
pub proof fn lemma_fee_window_ends_at_newest(block_count: u64, newest_block: BlockNumberOrTag, head: u64)
    ensures
        ({
            let w = fee_window(block_count, newest_block, head);
            let last: u64 = match newest_block {
                BlockNumberOrTag::Number(n) => if n < head {
                    n
                } else {
                    head
                },
                BlockNumberOrTag::Tag(_) => head,
                BlockNumberOrTag::Latest => head,
            };
            &&& w.oldest_block + w.count == block_end(last)
            &&& w.count <= block_count
            &&& w.count <= MAX_FEE_HISTORY_BLOCKS
            &&& w.count <= block_end(last)
            &&& (w.count == block_count || w.count == MAX_FEE_HISTORY_BLOCKS || w.count
                == block_end(last))
            &&& (w.count > 0 <==> block_count > 0)
        }),
{
}

/// The network version the net namespace reports: the chain id in decimal.
pub fn network_version(chain_id: u64) -> (s: String)
    ensures
        s@ == decimal(chain_id as nat),
{
    decimal_string(chain_id as u128)
}

/// The client version the web3 namespace reports.
pub open spec fn client_version_text() -> Seq<char> {
    "kora/0.1.0"@
}

/// Web3 API implementation.
#[derive(Clone, Copy, Debug, Default)]
pub struct Web3ApiImpl;

impl Web3ApiImpl {
    /// Create a new Web3 API implementation.
    pub fn new() -> (r: Self) {
        Web3ApiImpl
    }

    /// Returns the client version: `kora/` and the crate's version.
    pub fn client_version(&self) -> (s: String)
        ensures
            s@ == client_version_text(),
    {
        String::from_str("kora/0.1.0")
    }

    /// Returns the Keccak-256 hash of the given data.
    pub fn sha3(&self, data: &[u8]) -> (r: [u8; 32])
        ensures
            r@ == keccak256_digest(data@),
    {
        keccak256(data)
    }
}

/// Net API implementation: the network version and a peer count that
/// the node updates through a shared handle.
#[derive(Debug)]
pub struct NetApiImpl {
    chain_id: u64,
    peer_count: Arc<AtomicU64>,
}

impl NetApiImpl {
    /// The chain id the network version reports.
    pub closed spec fn spec_chain_id(&self) -> u64 {
        self.chain_id
    }

    /// Create a new Net API implementation with no peers.
    pub fn new(chain_id: u64) -> (r: Self)
        ensures
            r.spec_chain_id() == chain_id,
    {
        NetApiImpl { chain_id, peer_count: Arc::new(AtomicU64::new(0)) }
    }

    /// The shared counter that holds the peer count.
    pub closed spec fn peer_counter(&self) -> Arc<AtomicU64> {
        self.peer_count
    }

    /// Get a handle to update the peer count: the API's own shared counter.
    pub fn peer_count_handle(&self) -> (h: Arc<AtomicU64>)
        ensures
            h == self.peer_counter(),
    {
        self.peer_count.clone()
    }

    /// Update the peer count.
    pub fn set_peer_count(&self, count: u64) {
        self.peer_count.store(count, Ordering::Relaxed);
    }

    /// The network version: the chain id in decimal.
    pub fn version(&self) -> (s: String)
        ensures
            s@ == decimal(self.spec_chain_id() as nat),
    {
        network_version(self.chain_id)
    }

    /// The node always listens for connections.
    pub fn listening(&self) -> (r: bool)
        ensures
            r,
    {
        true
    }

    /// The number of connected peers, as last set.
    pub fn peer_count(&self) -> u64 {
        self.peer_count.load(Ordering::Relaxed)
    }
}

} // verus!
