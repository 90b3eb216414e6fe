//! Append-only, content-addressed versioning of encrypted entities.

pub mod types;
pub mod store;
pub mod snapshot;
