//! RPC server helpers: CORS and rate limit settings, error codes and
//! messages, block references, the fee history window, and the eth
//! namespace's pending submissions.

pub mod api;
pub mod config;
pub mod error;
pub mod eth;
pub mod pending;
pub mod types;
