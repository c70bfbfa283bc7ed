//! A minimal blockchain fork-choice library with a few small state machines.
//!
//! The heart of the crate is the [`fork_choice`] module: given several
//! candidate chains of block headers, a pluggable rule decides which chain
//! is best. Headers are identified by a deterministic 64-bit digest, defined
//! in [`hashing`] and [`header`]. The [`atm`] and [`activity`] modules hold
//! two small, self-contained state machines.

pub mod activity;
pub mod atm;
pub mod fork_choice;
pub mod hashing;
pub mod header;
