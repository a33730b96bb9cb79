//! Client-side core of an order-book exchange hosted on a remote ledger.
//!
//! The library decodes the exchange's on-chain account formats into typed
//! snapshots, extracts order-book state, caches open-orders lookups, and
//! plans the order-lifecycle transactions.  Fetching account bytes, signing
//! and submitting transactions are left to the surrounding application.

pub mod address;
pub mod book;
pub mod control;
pub mod error;
pub mod framing;
pub mod little_endian;
pub mod market;
pub mod orders;
pub mod plans;
