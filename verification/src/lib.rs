//! Read-facing query surface of a blockchain node.
//!
//! The library answers external requests about node status, blocks,
//! operations, endorsements, account state and simulated ("read-only")
//! smart-contract execution by combining the partial views held by several
//! independently-owned subsystems: a pending-operation pool, a
//! consensus/block-graph authority, an execution ledger, a peer registry and
//! a producer selector.  The subsystems themselves are reached by the caller;
//! this crate holds the verified aggregation logic: argument guarding, the
//! slot/cycle clock, dual-source record merging, the operation submission
//! pipeline, per-address fan-out assembly, graph and status projection, and
//! the stubbed write-capability endpoints.

pub mod addresses;
pub mod datastore;
pub mod error;
pub mod execution;
pub mod graph;
pub mod guard;
pub mod latch;
pub mod merge;
pub mod models;
pub mod sendops;
pub mod status;
pub mod stubs;
pub mod timeslots;
