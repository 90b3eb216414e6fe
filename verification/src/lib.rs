//! Verified core of the personal analytics engine: text handling, the
//! crypto vault, the append-only version store, CSV review, storage
//! validation and the request/response logic of the HTTP API.

pub mod text;
pub mod codec;
pub mod crypto;
pub mod versioning;
pub mod storage;
pub mod api;
pub mod risk;
