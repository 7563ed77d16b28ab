use crow_core::coordinator::Coordinator;
use crow_core::errors::OrchestratorError;
use crow_core::executor::{ExecAction, ExecEvent, ExecPhase};
use crow_core::job::{JobAnalysis, JobStatus};
use crow_core::sandbox::{LifecycleState, SandboxHandle};

fn job(id: &str) -> JobAnalysis {
    JobAnalysis {
        id: String::from(id),
        file_name: format!("{id}.bin"),
        file_hash: String::from("hash"),
        submitted_at: 1_700_000_000,
        status: JobStatus::Pending,
    }
}

fn handle(id: &str) -> SandboxHandle {
    SandboxHandle::new(String::from(id))
}

/// Drives the executor for `job_id` through a successful run.
fn run_to_done(coord: &mut Coordinator, job_id: &str) {
    let i = coord.executor_index(&String::from(job_id)).unwrap();
    let act = coord.deliver(i, ExecEvent::Provisioned(handle("sbx")));
    assert!(matches!(act, Some(ExecAction::Execute)));
    let act = coord.deliver(i, ExecEvent::ExecutionFinished);
    assert!(matches!(act, Some(ExecAction::Teardown)));
    let act = coord.deliver(i, ExecEvent::TeardownFinished);
    assert!(act.is_none());
}

#[test]
fn empty_tick_spawns_nothing() {
    let mut coord = Coordinator::new(4);
    let spawned = coord.tick();
    assert!(spawned.is_empty());
    assert_eq!(coord.executors.len(), 0);
    assert_eq!(coord.limiter.in_use, 0);
}

#[test]
fn three_jobs_two_slots() {
    let mut coord = Coordinator::new(2);
    for id in ["a", "b", "c"] {
        coord.submit(job(id)).unwrap();
    }

    // First tick: exactly two executors are admitted; the third job waits.
    let spawned = coord.tick();
    assert_eq!(spawned, ["a", "b"]);
    assert_eq!(coord.limiter.in_use, 2);
    assert_eq!(
        coord.store.status_of(&String::from("c")),
        Some(JobStatus::Pending)
    );

    // A tick while both slots are held admits nothing more.
    let spawned = coord.tick();
    assert!(spawned.is_empty());
    assert_eq!(coord.limiter.in_use, 2);

    // One job finishes; its slot frees, and only then is the third claimed.
    run_to_done(&mut coord, "a");
    assert_eq!(coord.limiter.in_use, 1);
    let spawned = coord.tick();
    assert_eq!(spawned, ["c"]);
    assert_eq!(
        coord.store.status_of(&String::from("a")),
        Some(JobStatus::Done)
    );

    run_to_done(&mut coord, "b");
    run_to_done(&mut coord, "c");
    let spawned = coord.tick();
    assert!(spawned.is_empty());
    for id in ["a", "b", "c"] {
        assert_eq!(
            coord.store.status_of(&String::from(id)),
            Some(JobStatus::Done)
        );
    }
    assert_eq!(coord.limiter.in_use, 0);
}

#[test]
fn burst_never_exceeds_capacity() {
    let mut coord = Coordinator::new(2);
    for id in ["a", "b", "c", "d", "e"] {
        coord.submit(job(id)).unwrap();
    }
    let spawned = coord.tick();
    assert_eq!(spawned.len(), 2);
    assert_eq!(coord.limiter.in_use, 2);
    let spawned = coord.tick();
    assert!(spawned.is_empty());
    assert_eq!(coord.limiter.in_use, 2);
}

#[test]
fn executors_hold_distinct_job_ids() {
    let mut coord = Coordinator::new(3);
    for id in ["a", "b", "c"] {
        coord.submit(job(id)).unwrap();
    }
    coord.tick();
    let ids: Vec<&String> = coord.executors.iter().map(|e| &e.job_id).collect();
    for i in 0..ids.len() {
        for j in (i + 1)..ids.len() {
            assert_ne!(ids[i], ids[j]);
        }
    }
}

#[test]
fn timeout_yields_error_and_single_teardown() {
    let mut coord = Coordinator::new(1);
    coord.submit(job("slow")).unwrap();
    let spawned = coord.tick();
    assert_eq!(spawned, ["slow"]);

    let i = coord.executor_index(&String::from("slow")).unwrap();
    let act = coord.deliver(i, ExecEvent::Provisioned(handle("sbx")));
    assert!(matches!(act, Some(ExecAction::Execute)));

    // The payload hangs past its budget: the executor forces teardown at
    // once rather than waiting the payload out.
    let act = coord.deliver(i, ExecEvent::ExecutionTimedOut);
    assert!(matches!(act, Some(ExecAction::Teardown)));
    assert_eq!(coord.executors[i].teardown_requests, 1);

    let act = coord.deliver(i, ExecEvent::TeardownFinished);
    assert!(act.is_none());
    assert_eq!(coord.executors[i].teardown_requests, 1);
    assert_eq!(coord.executors[i].phase, ExecPhase::Error);

    coord.tick();
    assert_eq!(
        coord.store.status_of(&String::from("slow")),
        Some(JobStatus::Error)
    );
    let detail = coord.executors[i].pending_error;
    assert_eq!(detail, Some(OrchestratorError::ExecutionTimeout));
}

#[test]
fn provision_failure_yields_error_and_single_teardown() {
    let mut coord = Coordinator::new(1);
    coord.submit(job("x")).unwrap();
    coord.tick();

    let i = coord.executor_index(&String::from("x")).unwrap();
    let act = coord.deliver(i, ExecEvent::ProvisionFailed);
    assert!(matches!(act, Some(ExecAction::Teardown)));
    let act = coord.deliver(i, ExecEvent::TeardownFinished);
    assert!(act.is_none());
    assert_eq!(coord.executors[i].teardown_requests, 1);
    assert_eq!(coord.executors[i].phase, ExecPhase::Error);

    coord.tick();
    assert_eq!(
        coord.store.status_of(&String::from("x")),
        Some(JobStatus::Error)
    );
}

#[test]
fn success_requests_teardown_exactly_once() {
    let mut coord = Coordinator::new(1);
    coord.submit(job("ok")).unwrap();
    coord.tick();
    run_to_done(&mut coord, "ok");
    let i = coord.executor_index(&String::from("ok")).unwrap();
    assert_eq!(coord.executors[i].teardown_requests, 1);
    assert_eq!(coord.executors[i].phase, ExecPhase::Done);
}

#[test]
fn execution_failure_yields_error_status() {
    let mut coord = Coordinator::new(1);
    coord.submit(job("bad")).unwrap();
    coord.tick();
    let i = coord.executor_index(&String::from("bad")).unwrap();
    coord.deliver(i, ExecEvent::Provisioned(handle("sbx")));
    let act = coord.deliver(i, ExecEvent::ExecutionFailed);
    assert!(matches!(act, Some(ExecAction::Teardown)));
    coord.deliver(i, ExecEvent::TeardownFinished);
    coord.tick();
    assert_eq!(
        coord.store.status_of(&String::from("bad")),
        Some(JobStatus::Error)
    );
    assert_eq!(coord.executors[i].teardown_requests, 1);
}

#[test]
fn duplicate_submission_is_rejected() {
    let mut coord = Coordinator::new(1);
    coord.submit(job("a")).unwrap();
    let second = coord.submit(job("a"));
    assert_eq!(second, Err(OrchestratorError::DuplicateJob));
}

#[test]
fn outcomes_are_drained_in_receipt_order() {
    let mut coord = Coordinator::new(2);
    coord.submit(job("a")).unwrap();
    coord.submit(job("b")).unwrap();
    coord.tick();
    run_to_done(&mut coord, "b");
    run_to_done(&mut coord, "a");
    assert_eq!(coord.channel.len(), 2);
    assert_eq!(coord.channel[0].job_id, "b");
    assert_eq!(coord.channel[1].job_id, "a");
    coord.tick();
    assert_eq!(coord.channel.len(), 0);
}

#[test]
fn sandbox_handle_lifecycle() {
    let mut sbx = SandboxHandle::new(String::from("c-1"));
    assert_eq!(sbx.lifecycle_state, LifecycleState::Created);
    sbx.mark_started();
    assert_eq!(sbx.lifecycle_state, LifecycleState::Running);
    sbx.mark_stopped();
    assert_eq!(sbx.lifecycle_state, LifecycleState::Stopped);
    sbx.mark_destroyed();
    assert_eq!(sbx.lifecycle_state, LifecycleState::Destroyed);
    // Tearing down an already-destroyed sandbox stays a no-op.
    sbx.mark_destroyed();
    assert_eq!(sbx.lifecycle_state, LifecycleState::Destroyed);
}
