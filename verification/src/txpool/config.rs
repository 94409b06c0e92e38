use vstd::prelude::*;

verus! {

/// Configuration for the transaction pool.
#[derive(Debug, Clone, Copy, PartialEq, Eq)]
pub struct PoolConfig {
    /// Maximum number of pending (executable) transactions.
    pub max_pending_txs: usize,
    /// Maximum number of queued (future nonce) transactions.
    pub max_queued_txs: usize,
    /// Maximum transactions allowed per sender.
    pub max_txs_per_sender: usize,
    /// Maximum transaction size in bytes.
    pub max_tx_size: usize,
    /// Minimum gas price required for transaction acceptance.
    pub min_gas_price: u128,
    /// Percentage bump required for replacement transactions.
    pub replacement_bump_percent: u8,
}

/// The configuration that `new` and `default` produce.
pub open spec fn default_pool_config() -> PoolConfig {
    PoolConfig {
        max_pending_txs: 4096,
        max_queued_txs: 1024,
        max_txs_per_sender: 16,
        max_tx_size: 131072,
        min_gas_price: 0,
        replacement_bump_percent: 10,
    }
}

impl Default for PoolConfig {
    fn default() -> (c: Self)
        ensures
            c == default_pool_config(),
    {
        Self::new()
    }
}

impl PoolConfig {
    /// Creates a new pool configuration with default values.
    pub fn new() -> (c: Self)
        ensures
            c == default_pool_config(),
    {
        PoolConfig {
            max_pending_txs: 4096,
            max_queued_txs: 1024,
            max_txs_per_sender: 16,
            max_tx_size: 128 * 1024,
            min_gas_price: 0,
            replacement_bump_percent: 10,
        }
    }

    /// Sets the maximum number of pending transactions.
    pub fn with_max_pending_txs(self, max: usize) -> (c: Self)
        ensures
            c == (PoolConfig { max_pending_txs: max, ..self }),
    {
        PoolConfig { max_pending_txs: max, ..self }
    }

    /// Sets the maximum number of queued transactions.
    pub fn with_max_queued_txs(self, max: usize) -> (c: Self)
        ensures
            c == (PoolConfig { max_queued_txs: max, ..self }),
    {
        PoolConfig { max_queued_txs: max, ..self }
    }

    /// Sets the maximum transactions per sender.
    pub fn with_max_txs_per_sender(self, max: usize) -> (c: Self)
        ensures
            c == (PoolConfig { max_txs_per_sender: max, ..self }),
    {
        PoolConfig { max_txs_per_sender: max, ..self }
    }

    /// Sets the maximum transaction size in bytes.
    pub fn with_max_tx_size(self, max: usize) -> (c: Self)
        ensures
            c == (PoolConfig { max_tx_size: max, ..self }),
    {
        PoolConfig { max_tx_size: max, ..self }
    }

    /// Sets the minimum gas price required.
    pub fn with_min_gas_price(self, min: u128) -> (c: Self)
        ensures
            c == (PoolConfig { min_gas_price: min, ..self }),
    {
        PoolConfig { min_gas_price: min, ..self }
    }

    /// Sets the replacement bump percentage.
    pub fn with_replacement_bump_percent(self, percent: u8) -> (c: Self)
        ensures
            c == (PoolConfig { replacement_bump_percent: percent, ..self }),
    {
        PoolConfig { replacement_bump_percent: percent, ..self }
    }
}

} // verus!
