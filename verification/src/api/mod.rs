//! Request and response types of the HTTP API and the logic of its handlers
//! that does not touch the network or the database.

pub mod crypto_api;
pub mod holdings_api;
pub mod import_api;
pub mod portfolio;
pub mod versioning_api;
