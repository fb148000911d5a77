//! Verified core of a mailbox synchronization engine.
//!
//! Remote mailboxes are mirrored to local on-disk stores with bounded
//! parallelism: the identifiers found in a mailbox are partitioned into
//! contiguous chunks, one fetch worker per chunk pushes messages through a
//! bounded channel to a single writer, and failures are isolated to the
//! smallest enclosing scope. This crate holds the decision logic of that
//! engine — credential resolution, work partitioning, flag translation, the
//! worker and writer state machines, and error aggregation — with contracts
//! checked by Verus. The surrounding I/O (network sessions, process
//! execution, the on-disk store) lives outside the verified core and drives
//! these functions.

pub mod chunks;
pub mod config;
pub mod credential;
pub mod engine;
pub mod errors;
pub mod flags;
