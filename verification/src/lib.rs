pub mod address;
pub mod bindings;
pub mod calendar;
pub mod credentials;
pub mod data_api;
pub mod gateway;
pub mod grpc;
pub mod http;
pub mod json;
pub mod kv_sdk;
pub mod number;
pub mod query;
pub mod scenario;
pub mod settings;
pub mod sockets;
pub mod text;
pub mod types;
pub mod wire;
