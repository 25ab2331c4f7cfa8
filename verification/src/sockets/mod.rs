//! Couchbase over its KV binary protocol, on one socket to one node.

pub mod config;
pub mod conn;
pub mod feature;
pub mod laws;
pub mod op;
pub mod plugin;
pub mod project;
pub mod proto;
pub mod query;
pub mod status;
