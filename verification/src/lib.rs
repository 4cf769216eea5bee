//! Consensus-orchestration core of a blockchain validator node.
//!
//! The crate coordinates three collaborators: an asynchronous BFT ordering
//! engine, an append-only ledger, and a memory pool of unconfirmed
//! transactions and prover solutions. The ledger and the ordering engine are
//! external services; this library models the state the consensus logic
//! reads from them as plain values and verifies the rules that decide when
//! pending work becomes eligible for a block and how acceptance of a block
//! prunes the pool.

pub mod block;
pub mod committee;
pub mod consensus;
pub mod entries;
pub mod errors;
pub mod index_map;
pub mod ledger;
pub mod pool;
