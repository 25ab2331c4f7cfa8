//! Couchbase through the SDK's KV transport.

pub mod config;
pub mod laws;
pub mod plugin;
pub mod query;
