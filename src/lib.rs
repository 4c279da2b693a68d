//! Confidential swap settlement: commit-reveal intake of swaps and limit
//! orders, stake-ordered batch settlement behind a randomized time-lock, and
//! the small ledgers (staking, governance votes, audit log) around them.
//!
//! Every outside service that decides something (the proof verifier, the
//! identity attestation, the stake lookup) hands its verdict in as a plain
//! value; the library decides everything else and states it in contracts.

pub mod state;
pub mod digest;
pub mod schedule;
pub mod codec;
pub mod commit_reveal;
pub mod ledgers;
pub mod laws;
