//! Secure random bytes for programs hosted by a JavaScript runtime.
//!
//! The library holds the decisions: which randomness source a host offers
//! (`detect`), the per-thread cache of that choice (`cache`), and how a
//! request is cut into calls of the host's fill primitive (`chunk`). The
//! host calls themselves are made by the caller, which hands the outcome of
//! each probe and fill back to these functions.

pub mod chunk;
pub mod cache;
pub mod detect;
pub mod error;
