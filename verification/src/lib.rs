//! Verified core of a sandboxed-execution job orchestrator.
//!
//! Submitted files become analysis jobs; a coordinator claims pending jobs
//! from a job store, dispatches each to an executor that drives a disposable
//! sandbox through provision, execute, collect and teardown, and reconciles
//! every outcome back into durable job state without losing or
//! double-processing a job.

pub mod checks;
pub mod coordinator;
pub mod errors;
pub mod executor;
pub mod job;
pub mod limiter;
pub mod logger;
pub mod sandbox;
pub mod store;
