//! Carrying values between tracing spans and the context.

use vstd::prelude::*;

pub mod async_layer;
pub mod field_laws;
pub mod field_mapping;
pub mod guard_stack;
pub mod layer;
pub mod layer_common;
pub mod log_enrichment;
pub mod span_info;
pub mod span_laws;
pub mod sync_layer;
pub mod tracing_field;

verus! {

/// The layer that enters no scopes, under its short name.
pub type DcontextLayer = sync_layer::SyncDcontextLayer;

/// The builder of that layer.
pub type DcontextLayerBuilder = sync_layer::SyncDcontextLayerBuilder;

} // verus!
