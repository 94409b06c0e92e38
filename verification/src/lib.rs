//! Verified core of the Kora execution client: the transaction pool, the
//! distributed key generation bookkeeping, RPC helpers and the small codecs
//! that the node relies on.

pub mod bytes;
pub mod cli;
pub mod consensus;
pub mod devnet;
pub mod dkg;
pub mod evm;
pub mod executor;
pub mod finality;
pub mod hexstr;
pub mod idents;
pub mod keyed;
pub mod loadgen;
pub mod net;
pub mod node;
pub mod rpc;
pub mod runner;
pub mod scenario;
pub mod stubs;
pub mod text;
pub mod textmap;
pub mod txpool;
