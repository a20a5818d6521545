//! Bookkeeping and request sequencing for a pooled key-value cache client.
//!
//! The crate holds the decisions of a connection pool and of the cache
//! operations built on it; opening sockets and waiting are left to the caller.

pub mod cache;
pub mod client;
pub mod config;
pub mod error;
pub mod laws;
pub mod model;
pub mod pool;
pub mod reply;
