//! Couchbase over the HTTP Data API.

pub mod api;
pub mod config;
pub mod laws;
pub mod mutation;
pub mod plugin;
pub mod query;
pub mod timefmt;
