//! Core of the Raft consensus protocol's leader election and log replication,
//! seen from a single participant: role state machine (Follower / Candidate /
//! Leader), term bookkeeping, vote granting, quorum detection and log
//! replication bookkeeping, driven by a discrete-event simulation harness.

pub mod log;
pub mod machine;
pub mod msg;
pub mod quorum;
pub mod roles;
pub mod sched;
pub mod state;
