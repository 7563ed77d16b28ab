//! The error taxonomy of the orchestration core.

use vstd::prelude::*;

verus! {

/// Everything that can go wrong around one job.
///
/// `StoreUnavailable` is transient and store-side: the coordinator retries on
/// the next tick. `ProvisionFailed`, `ExecutionFailed` and `ExecutionTimeout`
/// terminate the affected job with status `Error` and are never retried by
/// the core. `DuplicateJob` rejects a submission whose id is already present.
/// `ChannelClosed` signals broken wiring and is fatal to the coordinator.
#[derive(Clone, Copy, Debug, PartialEq, Eq, Structural)]
pub enum OrchestratorError {
    StoreUnavailable,
    DuplicateJob,
    ProvisionFailed,
    ExecutionFailed,
    ExecutionTimeout,
    ChannelClosed,
}

impl OrchestratorError {
    /// What each error renders as, e.g. in a failed job's outcome detail.
    pub open spec fn spec_message(self) -> Seq<char> {
        match self {
            OrchestratorError::StoreUnavailable => "job store unavailable"@,
            OrchestratorError::DuplicateJob => "job id already submitted"@,
            OrchestratorError::ProvisionFailed => "sandbox provisioning failed"@,
            OrchestratorError::ExecutionFailed => "analysis payload failed"@,
            OrchestratorError::ExecutionTimeout => "analysis exceeded its time budget"@,
            OrchestratorError::ChannelClosed => "completion channel closed"@,
        }
    }

    /// Renders the error as a human-readable message.
    pub fn message(self) -> (r: String)
        ensures
            r@ == self.spec_message(),
    {
        match self {
            OrchestratorError::StoreUnavailable => "job store unavailable".to_owned(),
            OrchestratorError::DuplicateJob => "job id already submitted".to_owned(),
            OrchestratorError::ProvisionFailed => "sandbox provisioning failed".to_owned(),
            OrchestratorError::ExecutionFailed => "analysis payload failed".to_owned(),
            OrchestratorError::ExecutionTimeout => "analysis exceeded its time budget".to_owned(),
            OrchestratorError::ChannelClosed => "completion channel closed".to_owned(),
        }
    }
}

} // verus!
