//! A minimal proof-of-work ledger.
//!
//! A chain of blocks, each holding signed value-transfer transactions, is
//! secured by a hash chain and a proof-of-work puzzle. The crate provides
//! deterministic content-addressed hashing of transactions and blocks,
//! asymmetric-key transaction signing and verification, the proof-of-work
//! mining loop, and full-chain structural validation.

pub mod block;
pub mod blockchain;
pub mod crypto;
pub mod digest;
pub mod transaction;
