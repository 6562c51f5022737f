//! The state store core of an epoch-driven dataflow: how the state of each
//! operator is addressed, how it is persisted as a log of changes, and how
//! it is rebuilt from that log when a worker resumes.
//!
//! - [`keys`] scope state to a step, to a routing key within the step, and
//!   to an epoch; [`order`] holds the total orders they are compared by.
//! - [`change`] is the change log model: upserts and discards of keys, and
//!   the reader and writer capabilities of a log.
//! - [`state`] is what a state store holds: opaque bytes under store keys,
//!   and the summary of its changes for garbage collection.
//! - [`resume`] is the snapshot into which the log is replayed, and from
//!   which each step claims its state.
//! - [`table`] is the association table that the snapshot is built on.
//!
//! Contracts are stated over views: a key stands for its text, a payload
//! for its bytes, a snapshot for a map.

pub mod change;
pub mod keys;
pub mod order;
pub mod resume;
pub mod state;
pub mod table;
