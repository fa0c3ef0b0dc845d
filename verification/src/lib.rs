//! Scoped, typed context values that travel with the flow of execution.

pub mod actor_bridge;
pub mod async_ctx;
pub mod attach;
pub mod cell;
pub mod cluster;
pub mod config;
pub mod context;
pub mod context_future;
pub mod context_key;
pub mod error;
pub mod fork;
pub mod frozen;
pub mod future_ext;
pub mod helpers;
pub mod inheritance;
pub mod key_map;
pub mod registry;
pub mod registry_laws;
pub mod scope;
pub mod snapshot;
pub mod store;
pub mod store_laws;
pub mod sync_ctx;
pub mod sync_storage;
pub mod text;
pub mod tracing_bridge;
pub mod value;
pub mod wire;
pub mod wire_format;
pub mod wire_laws;
