//! A minimal single-node append-only ledger: records linked by digests,
//! with an optional proof-of-work gate on admission.
//!
//! The ledger is built from three layers, leaves first: the digest
//! function over a record's hashed fields, the [`block::Block`] record
//! itself, and the [`chain::Blockchain`] that owns the records and
//! exposes append and validation.

pub mod block;
pub mod chain;
pub mod digest;
