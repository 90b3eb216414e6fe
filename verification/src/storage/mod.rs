//! Persistence of holdings, portfolios and accounts. Every sensitive field is
//! a client-side AES-256-GCM ciphertext blob; the engine never sees
//! plaintext. This module holds the records and the rules a write must pass;
//! the SQLite database itself is driven by the application.

pub mod db;

pub use db::{Account, AccountType, Holding, NewHolding, Portfolio, StorageError};
