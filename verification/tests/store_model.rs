use crow_core::errors::OrchestratorError;
use crow_core::job::{JobAnalysis, JobStatus};
use crow_core::store::JobStore;

fn job(id: &str) -> JobAnalysis {
    JobAnalysis {
        id: String::from(id),
        file_name: format!("{id}.bin"),
        file_hash: String::from("hash"),
        submitted_at: 1_700_000_000,
        status: JobStatus::Pending,
    }
}

#[test]
fn insert_returns_id_and_stores_pending() {
    let mut store = JobStore::new();
    let id = store.insert(job("a")).unwrap();
    assert_eq!(id, "a");
    assert_eq!(store.len(), 1);
    assert_eq!(
        store.status_of(&String::from("a")),
        Some(JobStatus::Pending)
    );
}

#[test]
fn duplicate_insert_is_rejected_whole() {
    let mut store = JobStore::new();
    store.insert(job("a")).unwrap();
    let second = store.insert(job("a"));
    assert_eq!(second, Err(OrchestratorError::DuplicateJob));
    assert_eq!(store.len(), 1);
}

#[test]
fn claim_takes_first_pending_up_to_limit() {
    let mut store = JobStore::new();
    for id in ["a", "b", "c"] {
        store.insert(job(id)).unwrap();
    }
    let claimed = store.claim_pending(2);
    let ids: Vec<&str> = claimed.iter().map(|j| j.id.as_str()).collect();
    assert_eq!(ids, ["a", "b"]);
    for j in &claimed {
        assert_eq!(j.status, JobStatus::Running);
    }
    assert_eq!(
        store.status_of(&String::from("a")),
        Some(JobStatus::Running)
    );
    assert_eq!(
        store.status_of(&String::from("b")),
        Some(JobStatus::Running)
    );
    assert_eq!(
        store.status_of(&String::from("c")),
        Some(JobStatus::Pending)
    );
}

#[test]
fn claim_skips_non_pending_jobs() {
    let mut store = JobStore::new();
    store.insert(job("a")).unwrap();
    store.insert(job("b")).unwrap();
    store.set_status(&String::from("a"), JobStatus::Done);
    let claimed = store.claim_pending(5);
    let ids: Vec<&str> = claimed.iter().map(|j| j.id.as_str()).collect();
    assert_eq!(ids, ["b"]);
}

#[test]
fn claim_with_nothing_pending_returns_empty() {
    let mut store = JobStore::new();
    let claimed = store.claim_pending(8);
    assert!(claimed.is_empty());

    store.insert(job("a")).unwrap();
    store.set_status(&String::from("a"), JobStatus::Done);
    let claimed = store.claim_pending(8);
    assert!(claimed.is_empty());
    assert_eq!(store.status_of(&String::from("a")), Some(JobStatus::Done));
}

#[test]
fn set_status_twice_is_idempotent() {
    let mut store = JobStore::new();
    store.insert(job("a")).unwrap();
    store.set_status(&String::from("a"), JobStatus::Done);
    assert_eq!(store.status_of(&String::from("a")), Some(JobStatus::Done));
    store.set_status(&String::from("a"), JobStatus::Done);
    assert_eq!(store.status_of(&String::from("a")), Some(JobStatus::Done));
    assert_eq!(store.len(), 1);
}

#[test]
fn set_status_on_unknown_id_is_a_no_op() {
    let mut store = JobStore::new();
    store.insert(job("a")).unwrap();
    store.set_status(&String::from("ghost"), JobStatus::Done);
    assert_eq!(store.len(), 1);
    assert_eq!(store.status_of(&String::from("ghost")), None);
    assert_eq!(
        store.status_of(&String::from("a")),
        Some(JobStatus::Pending)
    );
}
