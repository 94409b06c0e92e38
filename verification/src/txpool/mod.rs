//! Transaction pool: configuration, ordering, per-sender queues, the pool
//! itself and transaction validation.

pub mod config;
pub mod consistency;
pub mod envelope;
pub mod error;
pub mod ordering;
pub mod queue_laws;
pub mod priority;
pub mod pool;
pub mod validator;
pub mod pool_laws;
