//! State-transition core of a blockchain execution engine.
//!
//! A deploy is turned into a set of state deltas by running it against a
//! transactional overlay of an immutable snapshot of the committed state.
//! Every storage operation goes through a capability handle whose access
//! rights are checked at the primitive itself, and the deltas of one
//! execution merge per key under a small algebra before they are committed.
pub mod access_rights;
pub mod bytesrepr;
pub mod contract_api;
pub mod contracts;
pub mod engine;
pub mod error;
pub mod execution_result;
pub mod genesis;
pub mod global_state;
pub mod key;
pub mod key_map;
pub mod test_support;
pub mod tracking_copy;
pub mod transform;
pub mod value;
pub mod wasm_prep;
