//! Bindings to external contracts, derived from their interface description.
pub mod codec;
pub mod codegen;
pub mod types;
