//! Mirrors a single on-chain program's activity into a queryable store.
//!
//! The pipeline watches a live log stream for transactions that mention the
//! target program, fetches each transaction's detail, decodes the campaign
//! events carried in the program's log output, and persists blocks,
//! transactions and events with idempotent, replay-safe writes.

pub mod api;
pub mod codec;
pub mod config;
pub mod decoder;
pub mod error;
pub mod events;
pub mod indexer;
pub mod queue;
pub mod store;
pub mod subscriber;
pub mod watermark;
