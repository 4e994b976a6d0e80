//! Batch transaction dispatcher for a replicated execution runtime.
//!
//! The crate models the dispatch protocol of a deterministic state-machine
//! component: an ordered batch of opaque call payloads is decoded, validated
//! (check mode) or executed (execute mode) slot by slot against external
//! collaborators, and every slot's outcome is serialized into a wire envelope.
//! The contracts pin the parts the dispatcher itself decides: result-sequence
//! length, per-slot error texts, the abort latch, and the success/error
//! encoding discipline.

pub mod dispatcher;
pub mod eth_signing;
pub mod fund;
pub mod host;
pub mod parity;
pub mod prefetch;
pub mod types;
pub mod wire;
