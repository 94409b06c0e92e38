//! Distributed key generation: the ceremony's errors, persisted state,
//! output records, message framing and the decisions of the ceremony loop.

pub mod config;
pub mod error;
pub mod state;
pub mod output;
pub mod ceremony;
pub mod network;
pub mod transport;
