//! A correctness probe for a networked key-value store.
//!
//! The library holds what a run decides: the scenarios and their order, the
//! batches of tagged keys and their fingerprint, the commands that are sent,
//! the two encodings of the conditional expiry rule and the verdicts on what
//! the store answers. It also holds the store's documented semantics as a
//! model, the laws that follow from it, and an in-memory store that obeys
//! it. Sending the commands to a live store is left to the caller.

pub mod batch;
pub mod generator;
pub mod key;
pub mod laws;
pub mod oracle;
pub mod protocol;
pub mod scenario;
pub mod steps;
pub mod store;
pub mod verdict;
pub mod wire;
