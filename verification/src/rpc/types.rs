//! Block references and call requests of the Ethereum JSON-RPC API.

use vstd::prelude::*;

verus! {

/// Block tags for RPC queries.
#[derive(Clone, Copy, Debug, PartialEq, Eq, Structural)]
pub enum BlockTag {
    /// Earliest block (genesis).
    Earliest,
    /// Finalized block.
    Finalized,
    /// Safe block.
    Safe,
    /// Latest block.
    Latest,
    /// Pending block.
    Pending,
}

impl Default for BlockTag {
    fn default() -> (t: Self)
        ensures
            t == BlockTag::Latest,
    {
        BlockTag::Latest
    }
}

/// Block number or tag for RPC queries.
#[derive(Clone, Copy, Debug, PartialEq, Eq, Structural)]
pub enum BlockNumberOrTag {
    /// Block number.
    Number(u64),
    /// Block tag.
    Tag(BlockTag),
    /// Default to latest.
    Latest,
}

impl Default for BlockNumberOrTag {
    fn default() -> (b: Self)
        ensures
            b == BlockNumberOrTag::Latest,
    {
        BlockNumberOrTag::Latest
    }
}

impl BlockNumberOrTag {
    /// Returns true if this is a pending block reference.
    pub fn is_pending(&self) -> (r: bool)
        ensures
            r == (*self == BlockNumberOrTag::Tag(BlockTag::Pending)),
    {
        match self {
            BlockNumberOrTag::Tag(BlockTag::Pending) => true,
            _ => false,
        }
    }

    /// Returns true if this is the latest block reference.
    pub fn is_latest(&self) -> (r: bool)
        ensures
            r == (*self == BlockNumberOrTag::Tag(BlockTag::Latest) || *self == BlockNumberOrTag::Latest),
    {
        match self {
            BlockNumberOrTag::Tag(BlockTag::Latest) | BlockNumberOrTag::Latest => true,
            _ => false,
        }
    }
}

/// Call request for eth_call and eth_estimateGas (addresses are 20 bytes,
/// amounts 32 big-endian bytes).
#[derive(Clone, Debug, Default)]
pub struct CallRequest {
    /// Sender address.
    pub from: Option<[u8; 20]>,
    /// Recipient address.
    pub to: Option<[u8; 20]>,
    /// Gas limit.
    pub gas: Option<u64>,
    /// Gas price.
    pub gas_price: Option<[u8; 32]>,
    /// Max fee per gas (EIP-1559).
    pub max_fee_per_gas: Option<[u8; 32]>,
    /// Max priority fee per gas (EIP-1559).
    pub max_priority_fee_per_gas: Option<[u8; 32]>,
    /// Value to transfer.
    pub value: Option<[u8; 32]>,
    /// Input data.
    pub input: Option<Vec<u8>>,
    /// Legacy data field (alias for input).
    pub data: Option<Vec<u8>>,
    /// Nonce.
    pub nonce: Option<u64>,
    /// Chain ID.
    pub chain_id: Option<u64>,
}

impl CallRequest {
    /// Get the input data, preferring `input` over `data`, empty when
    /// neither is set.
    pub fn input_data(&self) -> (r: Vec<u8>)
        ensures
            r@ == match self.input {
                Some(i) => i@,
                None => match self.data {
                    Some(d) => d@,
                    None => Seq::empty(),
                },
            },
    {
        match &self.input {
            Some(i) => i.clone(),
            None => match &self.data {
                Some(d) => d.clone(),
                None => Vec::new(),
            },
        }
    }
}

} // verus!
