//! Consensus and validation core of a small blockchain node.
//!
//! The crate is organised around a chain store holding the finalized,
//! append-only chain, a pure validator for blocks and transactions, two
//! consensus strategies (proof of work and proof of stake) that produce
//! candidate blocks, a voting subsystem that tallies validator decisions
//! into a finalize/reject outcome, and a coordinator state machine that
//! drives one round at a time from proposal to commit.

pub mod block;
pub mod chain;
pub mod config;
pub mod consensus;
pub mod coordinator;
pub mod crypto;
pub mod db;
pub mod executor;
pub mod math;
pub mod rpc;
pub mod storage;
pub mod utils;
pub mod validator;
pub mod validator_set;
pub mod voting;
