//! A minimal verified record store.
//!
//! Clients submit text; the store compresses it, persists it under a
//! generated numeric identifier, and later retrieves and decompresses it
//! by that identifier. A secondary ledger tracks per-account numeric
//! balances that can be decremented to represent a usage charge.

pub mod codec;
pub mod engine;
pub mod ledger;
pub mod store;
