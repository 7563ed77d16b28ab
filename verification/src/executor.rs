//! The sandbox executor: drives a single claimed job through its lifecycle —
//! provision a sandbox, run the analysis, collect the result, tear the
//! sandbox down — and emits exactly one outcome, whatever path the run takes.
//!
//! The executor is a state machine over events. The surrounding runtime
//! performs the sandbox work it asks for (provision, execute, teardown) and
//! reports what happened; every decision lives here.

use vstd::prelude::*;
use crate::errors::OrchestratorError;
use crate::job::{JobStatus, Outcome};
use crate::sandbox::SandboxHandle;

verus! {

/// Where an executor stands in the job lifecycle
/// `Claimed -> Provisioning -> Running -> Collecting -> {Done, Error}`.
#[derive(Clone, Copy, Debug, PartialEq, Eq, Structural)]
pub enum ExecPhase {
    /// Job handed to this executor; no resource bound yet.
    Claimed,
    /// Sandbox allocation in progress.
    Provisioning,
    /// Artifact injected, payload executing under a timeout budget.
    Running,
    /// Payload finished or failed; teardown requested, outcome pending.
    Collecting,
    /// Terminal: the job succeeded.
    Done,
    /// Terminal: the job failed.
    Error,
}

impl ExecPhase {
    /// A terminal phase is never left.
    pub open spec fn is_terminal(self) -> bool {
        self is Done || self is Error
    }
}

/// What the outside world reports back to the executor about the sandbox
/// work it asked for.
#[derive(Clone, Debug)]
pub enum ExecEvent {
    /// A sandbox was allocated.
    Provisioned(SandboxHandle),
    /// No sandbox could be allocated.
    ProvisionFailed,
    /// The payload ran to completion.
    ExecutionFinished,
    /// The payload crashed.
    ExecutionFailed,
    /// The payload exceeded its wall-clock budget.
    ExecutionTimedOut,
    /// The sandbox was torn down.
    TeardownFinished,
}

/// What the executor asks the outside world to do next.
#[derive(Clone, Debug)]
pub enum ExecAction {
    /// Allocate a sandbox for this job.
    Provision,
    /// Inject the artifact and run the payload.
    Execute,
    /// Stop and destroy the sandbox.
    Teardown,
    /// Nothing: deliver this outcome; the executor is finished.
    Emit(Outcome),
}

/// One job's executor.
pub struct Executor {
    /// The id of the job this executor owns.
    pub job_id: String,
    /// Where the executor stands in the lifecycle.
    pub phase: ExecPhase,
    /// The sandbox this executor owns, once provisioned.
    pub sandbox: Option<SandboxHandle>,
    /// The terminal status to report, fixed when the run ends.
    pub pending_status: Option<JobStatus>,
    /// The failure to report, if the run failed.
    pub pending_error: Option<OrchestratorError>,
    /// How many times teardown has been requested.
    pub teardown_requests: u64,
    /// Whether the outcome has been emitted.
    pub emitted: bool,
}

impl Executor {
    /// What holds of an executor in every reachable state. In particular:
    /// teardown is requested exactly once before either terminal phase, and
    /// never more than once.
    pub open spec fn wf(self) -> bool {
        &&& self.teardown_requests <= 1
        &&& match self.phase {
            ExecPhase::Claimed | ExecPhase::Provisioning => {
                &&& self.teardown_requests == 0
                &&& self.sandbox is None
                &&& self.pending_status is None
                &&& self.pending_error is None
                &&& !self.emitted
            },
            ExecPhase::Running => {
                &&& self.teardown_requests == 0
                &&& self.sandbox is Some
                &&& self.pending_status is None
                &&& self.pending_error is None
                &&& !self.emitted
            },
            ExecPhase::Collecting => {
                &&& self.teardown_requests == 1
                &&& !self.emitted
                &&& self.pending_status matches Some(st) && st.is_terminal()
                &&& (self.pending_error is Some ==> self.pending_status == Some(
                    JobStatus::Error,
                ))
            },
            ExecPhase::Done | ExecPhase::Error => {
                &&& self.teardown_requests == 1
                &&& self.emitted
            },
        }
    }

    /// How many steps at most remain until a terminal phase.
    pub open spec fn rank(self) -> nat {
        match self.phase {
            ExecPhase::Claimed => 4,
            ExecPhase::Provisioning => 3,
            ExecPhase::Running => 2,
            ExecPhase::Collecting => 1,
            ExecPhase::Done => 0,
            ExecPhase::Error => 0,
        }
    }

    /// Whether this event can arrive in this phase: each phase waits for
    /// the answers to exactly the work it asked for. No event is applicable
    /// in a terminal phase.
    pub open spec fn applicable(self, ev: ExecEvent) -> bool {
        match (self.phase, ev) {
            (ExecPhase::Provisioning, ExecEvent::Provisioned(_)) => true,
            (ExecPhase::Provisioning, ExecEvent::ProvisionFailed) => true,
            (ExecPhase::Running, ExecEvent::ExecutionFinished) => true,
            (ExecPhase::Running, ExecEvent::ExecutionFailed) => true,
            (ExecPhase::Running, ExecEvent::ExecutionTimedOut) => true,
            (ExecPhase::Collecting, ExecEvent::TeardownFinished) => true,
            _ => false,
        }
    }

    /// A fresh executor holding one claimed job.
    pub fn new(job_id: String) -> (r: Executor)
        ensures
            r.wf(),
            r.phase is Claimed,
            r.job_id == job_id,
    {
        Executor {
            job_id,
            phase: ExecPhase::Claimed,
            sandbox: None,
            pending_status: None,
            pending_error: None,
            teardown_requests: 0,
            emitted: false,
        }
    }

    /// Starts the lifecycle: the executor binds itself to resource
    /// acquisition and asks for a sandbox.
    pub fn begin(&mut self) -> (r: ExecAction)
        requires
            old(self).wf(),
            old(self).phase is Claimed,
        ensures
            final(self).wf(),
            final(self).phase is Provisioning,
            final(self).job_id == old(self).job_id,
            final(self).rank() < old(self).rank(),
            r is Provision,
    {
        self.phase = ExecPhase::Provisioning;
        ExecAction::Provision
    }

    /// Feeds one event to the executor and returns what to do next. The
    /// transition taken is exactly `steps_to`.
    pub fn handle_event(&mut self, ev: ExecEvent) -> (r: ExecAction)
        requires
            old(self).wf(),
            old(self).applicable(ev),
        ensures
            final(self).wf(),
            steps_to(*old(self), ev, *final(self), r),
            final(self).rank() < old(self).rank(),
    {
        match ev {
            ExecEvent::Provisioned(handle) => {
                self.phase = ExecPhase::Running;
                self.sandbox = Some(handle);
                ExecAction::Execute
            },
            ExecEvent::ProvisionFailed => {
                self.phase = ExecPhase::Collecting;
                self.teardown_requests = 1;
                self.pending_status = Some(JobStatus::Error);
                self.pending_error = Some(OrchestratorError::ProvisionFailed);
                ExecAction::Teardown
            },
            ExecEvent::ExecutionFinished => {
                self.phase = ExecPhase::Collecting;
                self.teardown_requests = 1;
                self.pending_status = Some(JobStatus::Done);
                ExecAction::Teardown
            },
            ExecEvent::ExecutionFailed => {
                self.phase = ExecPhase::Collecting;
                self.teardown_requests = 1;
                self.pending_status = Some(JobStatus::Error);
                self.pending_error = Some(OrchestratorError::ExecutionFailed);
                ExecAction::Teardown
            },
            ExecEvent::ExecutionTimedOut => {
                self.phase = ExecPhase::Collecting;
                self.teardown_requests = 1;
                self.pending_status = Some(JobStatus::Error);
                self.pending_error = Some(OrchestratorError::ExecutionTimeout);
                ExecAction::Teardown
            },
            ExecEvent::TeardownFinished => {
                let status = match self.pending_status {
                    Some(st) => st,
                    None => JobStatus::Error,
                };
                self.phase = match status {
                    JobStatus::Done => ExecPhase::Done,
                    _ => ExecPhase::Error,
                };
                self.emitted = true;
                let detail = match self.pending_error {
                    Some(e) => Some(e.message()),
                    None => None,
                };
                ExecAction::Emit(
                    Outcome {
                        job_id: self.job_id.clone(),
                        result_status: status,
                        error_detail: detail,
                    },
                )
            },
        }
    }
}

/// The executor's transition relation — the lifecycle state machine itself.
/// Provisioning answers move the executor to `Running` or straight towards
/// `Error`; every end of a run, successful or not, requests teardown before
/// anything else; and only the completed teardown releases the outcome.
pub open spec fn steps_to(pre: Executor, ev: ExecEvent, post: Executor, act: ExecAction) -> bool {
    &&& post.job_id == pre.job_id
    &&& match (pre.phase, ev) {
        (ExecPhase::Provisioning, ExecEvent::Provisioned(h)) => {
            &&& post.phase is Running
            &&& post.sandbox == Some(h)
            &&& post.teardown_requests == 0
            &&& post.pending_status is None
            &&& post.pending_error is None
            &&& !post.emitted
            &&& act is Execute
        },
        (ExecPhase::Provisioning, ExecEvent::ProvisionFailed) => {
            &&& post.phase is Collecting
            &&& post.teardown_requests == 1
            &&& post.pending_status == Some(JobStatus::Error)
            &&& post.pending_error == Some(OrchestratorError::ProvisionFailed)
            &&& !post.emitted
            &&& act is Teardown
        },
        (ExecPhase::Running, ExecEvent::ExecutionFinished) => {
            &&& post.phase is Collecting
            &&& post.teardown_requests == 1
            &&& post.pending_status == Some(JobStatus::Done)
            &&& post.pending_error is None
            &&& !post.emitted
            &&& act is Teardown
        },
        (ExecPhase::Running, ExecEvent::ExecutionFailed) => {
            &&& post.phase is Collecting
            &&& post.teardown_requests == 1
            &&& post.pending_status == Some(JobStatus::Error)
            &&& post.pending_error == Some(OrchestratorError::ExecutionFailed)
            &&& !post.emitted
            &&& act is Teardown
        },
        (ExecPhase::Running, ExecEvent::ExecutionTimedOut) => {
            &&& post.phase is Collecting
            &&& post.teardown_requests == 1
            &&& post.pending_status == Some(JobStatus::Error)
            &&& post.pending_error == Some(OrchestratorError::ExecutionTimeout)
            &&& !post.emitted
            &&& act is Teardown
        },
        (ExecPhase::Collecting, ExecEvent::TeardownFinished) => {
            &&& post.phase == (if pre.pending_status == Some(JobStatus::Done) {
                ExecPhase::Done
            } else {
                ExecPhase::Error
            })
            &&& post.teardown_requests == 1
            &&& post.emitted
            &&& act matches ExecAction::Emit(o) && o.job_id@ == pre.job_id@ && Some(
                o.result_status,
            ) == pre.pending_status && (match (o.error_detail, pre.pending_error) {
                (Some(d), Some(e)) => d@ == e.spec_message(),
                (None, None) => true,
                _ => false,
            })
        },
        _ => false,
    }
}

/// One run of an executor, as observed at its boundary: each entry is the
/// event delivered, the state after it, and the action returned, every
/// event applicable in its turn and every transition per `steps_to`.
pub open spec fn trace_ok(start: Executor, steps: Seq<(ExecEvent, Executor, ExecAction)>) -> bool
    decreases steps.len(),
{
    steps.len() == 0 || {
        &&& start.applicable(steps.first().0)
        &&& steps_to(start, steps.first().0, steps.first().1, steps.first().2)
        &&& trace_ok(steps.first().1, steps.drop_first())
    }
}

/// The state at the end of a run.
pub open spec fn trace_end(start: Executor, steps: Seq<(ExecEvent, Executor, ExecAction)>) -> Executor
    decreases steps.len(),
{
    if steps.len() == 0 {
        start
    } else {
        trace_end(steps.first().1, steps.drop_first())
    }
}

/// How many outcomes a run emitted.
pub open spec fn emit_count(steps: Seq<(ExecEvent, Executor, ExecAction)>) -> nat
    decreases steps.len(),
{
    if steps.len() == 0 {
        0
    } else {
        (if steps.first().2 is Emit {
            1nat
        } else {
            0nat
        }) + emit_count(steps.drop_first())
    }
}

/// Each executor reaches exactly one terminal status and delivers exactly
/// one outcome. Along any run of applicable events, every step brings the
/// executor strictly closer to a terminal phase, so no run is longer than
/// the starting rank — at most four events — and an executor whose events
/// keep arriving cannot stay live forever; and a run has emitted exactly
/// one outcome precisely when it has reached a terminal phase, which no
/// further event can leave.
pub proof fn lemma_executor_lifecycle(start: Executor, steps: Seq<(ExecEvent, Executor, ExecAction)>)
    requires
        start.wf(),
        trace_ok(start, steps),
    ensures
        trace_end(start, steps).wf(),
        steps.len() + trace_end(start, steps).rank() <= start.rank(),
        emit_count(steps) <= 1,
        (emit_count(steps) == 1) <==> (trace_end(start, steps).phase.is_terminal()
            && !start.phase.is_terminal()),
    decreases steps.len(),
{
    if steps.len() > 0 {
        let ev0 = steps.first().0;
        let post0 = steps.first().1;
        let act0 = steps.first().2;
        lemma_executor_progress(start, ev0, post0, act0);
        if post0.phase.is_terminal() {
            if steps.drop_first().len() > 0 {
                assert(post0.applicable(steps.drop_first().first().0));
                assert(false);
            }
            assert(trace_end(start, steps) == post0);
            assert(emit_count(steps.drop_first()) == 0);
        } else {
            lemma_executor_lifecycle(post0, steps.drop_first());
        }
    }
}

/// Teardown is invoked exactly once per executor lifecycle, whichever phase
/// the executor exits from: success, provision failure, execution failure or
/// timeout all pass through exactly one teardown request.
pub proof fn lemma_teardown_exactly_once(e: Executor)
    requires
        e.wf(),
        e.phase.is_terminal(),
    ensures
        e.teardown_requests == 1,
{
}

/// Progress and uniqueness of the terminal status: from any live
/// well-formed executor state, every applicable event leads to a well-formed
/// state strictly closer to a terminal phase; the distance starts at most 4,
/// so a job reaches a terminal phase after at most four events. A terminal
/// phase accepts no further event, so the terminal status is reached exactly
/// once — and the outcome is emitted on exactly the step that reaches it.
pub proof fn lemma_executor_progress(pre: Executor, ev: ExecEvent, post: Executor, act: ExecAction)
    requires
        pre.wf(),
        pre.applicable(ev),
        steps_to(pre, ev, post, act),
    ensures
        post.wf(),
        pre.rank() <= 4,
        post.rank() < pre.rank(),
        !pre.phase.is_terminal(),
        act is Emit <==> post.phase.is_terminal(),
        post.phase.is_terminal() ==> forall|later: ExecEvent| !post.applicable(later),
        post.job_id == pre.job_id,
{
}

} // verus!
