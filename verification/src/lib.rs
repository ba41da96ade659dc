//! A namespaced entity cache over a key-value store, without the I/O.
//!
//! The crate holds the decisions of a cache client: how a key is named,
//! what is asked of the store, and what becomes of its answers. Talking to
//! the store is left to the caller, who performs each [`store::Request`]
//! and hands the answer back.

pub mod codec;
pub mod config;
pub mod eviction;
pub mod facade;
pub mod key;
pub mod scan;
pub mod scan_laws;
pub mod store;
pub mod types;
