//! Client-side key derivation and authenticated encryption.

pub mod vault;
