//! Staging area for incrementally building a transaction before broadcast.
//!
//! A staging transaction is an event-sourced aggregate: an append-ordered
//! journal of editing operations, replayed deterministically into a validated
//! in-memory transaction. The storage layer that makes the journal durable
//! (an append-only file with an advisory lock) lives outside this crate; the
//! crate works on the journal's record sequence itself.

pub mod codec;
pub mod operation;
pub mod staging;
pub mod transaction;
pub mod types;
