use crow_core::errors::OrchestratorError;
use crow_core::job::{JobAnalysis, JobStatus, Outcome};

#[test]
fn status_names_render_as_persisted() {
    assert_eq!(JobStatus::Pending.name(), "Pending");
    assert_eq!(JobStatus::Running.name(), "Running");
    assert_eq!(JobStatus::Done.name(), "Done");
    assert_eq!(JobStatus::Error.name(), "Error");
}

#[test]
fn status_parse_round_trips() {
    for status in [
        JobStatus::Pending,
        JobStatus::Running,
        JobStatus::Done,
        JobStatus::Error,
    ] {
        assert_eq!(JobStatus::parse(&status.name()), status);
    }
}

#[test]
fn unknown_status_parses_as_error() {
    assert_eq!(JobStatus::parse(&String::from("Bogus")), JobStatus::Error);
    assert_eq!(JobStatus::parse(&String::new()), JobStatus::Error);
}

#[test]
fn new_job_is_pending_with_fresh_id() {
    let job = JobAnalysis::new(String::from("sample.bin"), String::from("abc123"));
    assert_eq!(job.file_name, "sample.bin");
    assert_eq!(job.file_hash, "abc123");
    assert_eq!(job.status, JobStatus::Pending);
    assert_eq!(job.id.chars().count(), 36);
}

#[test]
fn fresh_ids_differ() {
    let a = JobAnalysis::new(String::from("a"), String::from("h"));
    let b = JobAnalysis::new(String::from("a"), String::from("h"));
    assert_ne!(a.id, b.id);
}

#[test]
fn duplicate_copies_every_field() {
    let job = JobAnalysis::new(String::from("a.bin"), String::from("ffff"));
    let copy = job.duplicate();
    assert_eq!(copy.id, job.id);
    assert_eq!(copy.file_name, job.file_name);
    assert_eq!(copy.file_hash, job.file_hash);
    assert_eq!(copy.submitted_at, job.submitted_at);
    assert_eq!(copy.status, job.status);
}

#[test]
fn outcome_constructors() {
    let done = Outcome::done(String::from("id-1"));
    assert_eq!(done.job_id, "id-1");
    assert_eq!(done.result_status, JobStatus::Done);
    assert!(done.error_detail.is_none());

    let failed = Outcome::failed(String::from("id-2"), Some(String::from("boom")));
    assert_eq!(failed.job_id, "id-2");
    assert_eq!(failed.result_status, JobStatus::Error);
    assert_eq!(failed.error_detail.as_deref(), Some("boom"));
}

#[test]
fn error_messages() {
    assert_eq!(
        OrchestratorError::StoreUnavailable.message(),
        "job store unavailable"
    );
    assert_eq!(
        OrchestratorError::DuplicateJob.message(),
        "job id already submitted"
    );
    assert_eq!(
        OrchestratorError::ProvisionFailed.message(),
        "sandbox provisioning failed"
    );
    assert_eq!(
        OrchestratorError::ExecutionFailed.message(),
        "analysis payload failed"
    );
    assert_eq!(
        OrchestratorError::ExecutionTimeout.message(),
        "analysis exceeded its time budget"
    );
    assert_eq!(
        OrchestratorError::ChannelClosed.message(),
        "completion channel closed"
    );
}
