//! Client-side transaction submission pipeline for a ledger node.
//!
//! The library builds typed transaction payloads with a deterministic
//! canonical encoding, signs them, drives a race-free
//! subscribe-before-broadcast confirmation protocol, decodes the
//! doubly-encoded confirmation payload, and reconciles newly created
//! accounts into a local alias store.

pub mod address;
pub mod decode;
pub mod encoding;
pub mod intent;
pub mod json;
pub mod payload;
pub mod protocol;
pub mod tx;
pub mod wallet;
