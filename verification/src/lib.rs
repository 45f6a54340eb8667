//! Cache-key derivation and a TTL-bounded cache facade over a key-value store.
//!
//! The library decides; the caller talks to the store. Every cache operation
//! is a small state machine that names the command to send next and, once the
//! store has answered, what the operation amounts to.

pub mod cache;
pub mod cli;
pub mod config;
pub mod key;
pub mod model;
pub mod operations;
pub mod protocol;
pub mod stats;
pub mod text;
