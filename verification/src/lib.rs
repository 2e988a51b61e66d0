//! Metered execution core of a smart-contract host: a two-dimensional
//! (CPU-instruction, memory-byte) budget driven by per-operation linear cost
//! models, a bit-packed `Symbol` identifier representation, and a
//! ledger-key-addressed storage facade with metered clones.

pub mod errors;
pub mod budget;
pub mod symbol;
pub mod xdr;
pub mod storage;
pub mod host;
