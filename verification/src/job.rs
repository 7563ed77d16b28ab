//! The job data model: a submitted artifact's analysis request, its status,
//! and the outcome an executor reports when it finishes.

use vstd::prelude::*;

verus! {

/// Durable status of a job. A job's own transitions are monotonic:
/// `Pending -> Running -> {Done, Error}`, never reversed.
#[derive(Clone, Copy, Debug, PartialEq, Eq, Structural)]
pub enum JobStatus {
    Pending,
    Running,
    Done,
    Error,
}

impl JobStatus {
    /// A terminal status is one a job never leaves.
    pub open spec fn is_terminal(self) -> bool {
        self is Done || self is Error
    }

    /// The status names as they are persisted in the job store.
    pub open spec fn spec_name(self) -> Seq<char> {
        match self {
            JobStatus::Pending => "Pending"@,
            JobStatus::Running => "Running"@,
            JobStatus::Done => "Done"@,
            JobStatus::Error => "Error"@,
        }
    }

    /// Renders the status exactly as the job store records it.
    pub fn name(self) -> (r: String)
        ensures
            r@ == self.spec_name(),
    {
        match self {
            JobStatus::Pending => "Pending".to_owned(),
            JobStatus::Running => "Running".to_owned(),
            JobStatus::Done => "Done".to_owned(),
            JobStatus::Error => "Error".to_owned(),
        }
    }

    /// What parsing a persisted status string yields: the matching status,
    /// and `Error` for anything unrecognized, so that a corrupted record
    /// surfaces as a failed job rather than a crash.
    pub open spec fn spec_parse(name: Seq<char>) -> JobStatus {
        if name == "Pending"@ {
            JobStatus::Pending
        } else if name == "Running"@ {
            JobStatus::Running
        } else if name == "Done"@ {
            JobStatus::Done
        } else {
            JobStatus::Error
        }
    }

    /// Parses a persisted status string; total, per `spec_parse`.
    pub fn parse(name: &String) -> (r: JobStatus)
        ensures
            r == JobStatus::spec_parse(name@),
    {
        if name.eq(&"Pending".to_owned()) {
            JobStatus::Pending
        } else if name.eq(&"Running".to_owned()) {
            JobStatus::Running
        } else if name.eq(&"Done".to_owned()) {
            JobStatus::Done
        } else {
            JobStatus::Error
        }
    }
}

/// Statuses may only move forward: a pending job may start running, a running
/// job may finish, and a terminal status never changes to a different one.
pub open spec fn status_can_advance(from: JobStatus, to: JobStatus) -> bool {
    ||| from == to
    ||| (from is Pending && to is Running)
    ||| (from is Pending && to.is_terminal())
    ||| (from is Running && to.is_terminal())
}

/// Round trip: rendering a status and parsing it back yields the same status,
/// so the store's textual records are a faithful encoding.
pub proof fn lemma_status_name_round_trip(s: JobStatus)
    ensures
        JobStatus::spec_parse(s.spec_name()) == s,
{
    reveal_strlit("Pending");
    reveal_strlit("Running");
    reveal_strlit("Done");
    reveal_strlit("Error");
    assert("Pending"@.len() == 7);
    assert("Running"@.len() == 7);
    assert("Done"@.len() == 4);
    assert("Error"@.len() == 5);
    assert("Pending"@[0] == 'P');
    assert("Running"@[0] == 'R');
}

/// One unit of analysis work, as the job store records it.
#[derive(Clone, Debug)]
pub struct JobAnalysis {
    /// Globally unique identifier, immutable, assigned at submission.
    pub id: String,
    /// Name of the submitted file.
    pub file_name: String,
    /// Content hash of the submitted file (SHA-256, hex).
    pub file_hash: String,
    /// Submission time, as a Unix timestamp in seconds.
    pub submitted_at: i64,
    /// Current lifecycle status.
    pub status: JobStatus,
}

/// The mathematical view of a job record: every field as a plain value.
#[verifier::ext_equal]
pub ghost struct JobView {
    pub id: Seq<char>,
    pub file_name: Seq<char>,
    pub file_hash: Seq<char>,
    pub submitted_at: int,
    pub status: JobStatus,
}

impl JobView {
    /// The same record with a different status.
    pub open spec fn with_status(self, status: JobStatus) -> JobView {
        JobView { status, ..self }
    }
}

impl View for JobAnalysis {
    type V = JobView;

    open spec fn view(&self) -> JobView {
        JobView {
            id: self.id@,
            file_name: self.file_name@,
            file_hash: self.file_hash@,
            submitted_at: self.submitted_at as int,
            status: self.status,
        }
    }
}

impl DeepView for JobAnalysis {
    type V = JobView;

    open spec fn deep_view(&self) -> JobView {
        self.view()
    }
}

/// Relies on `uuid::Uuid::new_v4` and `Uuid`'s `Display`: a freshly drawn
/// version-4 UUID rendered in its hyphenated form, which is 36 characters.
/// The value is random, so nothing but its length is assumed.
#[verifier::external_body]
fn fresh_job_id() -> (r: String)
    ensures
        r@.len() == 36,
{
    uuid::Uuid::new_v4().to_string()
}

/// Relies on `chrono::Utc::now`: the current wall-clock time as a Unix
/// timestamp in seconds. The value depends on the clock, so nothing is
/// assumed of it.
#[verifier::external_body]
fn current_timestamp() -> (r: i64) {
    chrono::Utc::now().timestamp()
}

impl JobAnalysis {
    /// Builds a fresh job for a submitted file: a new unique id, the current
    /// time, and status `Pending`.
    pub fn new(file_name: String, file_hash: String) -> (r: JobAnalysis)
        ensures
            r.file_name == file_name,
            r.file_hash == file_hash,
            r.status is Pending,
            r.id@.len() == 36,
    {
        JobAnalysis {
            id: fresh_job_id(),
            file_name,
            file_hash,
            submitted_at: current_timestamp(),
            status: JobStatus::Pending,
        }
    }

    /// An identical copy of the record.
    pub fn duplicate(&self) -> (r: JobAnalysis)
        ensures
            r@ == self@,
    {
        let r = JobAnalysis {
            id: self.id.clone(),
            file_name: self.file_name.clone(),
            file_hash: self.file_hash.clone(),
            submitted_at: self.submitted_at,
            status: self.status,
        };
        proof {
            assert(r@ =~= self@);
        }
        r
    }
}

/// The terminal result of one executor's run, delivered exactly once over the
/// completion channel and translated by the coordinator into a status write.
#[derive(Clone, Debug)]
pub struct Outcome {
    /// The job this outcome is for.
    pub job_id: String,
    /// The terminal status the job reached.
    pub result_status: JobStatus,
    /// For failed jobs, what went wrong.
    pub error_detail: Option<String>,
}

impl Outcome {
    /// An outcome always carries a terminal status, and detail only with
    /// a failure.
    pub open spec fn wf(self) -> bool {
        &&& self.result_status.is_terminal()
        &&& self.error_detail is Some ==> self.result_status is Error
    }

    /// The outcome of a successful run.
    pub fn done(job_id: String) -> (r: Outcome)
        ensures
            r.wf(),
            r.job_id == job_id,
            r.result_status is Done,
            r.error_detail is None,
    {
        Outcome { job_id, result_status: JobStatus::Done, error_detail: None }
    }

    /// The outcome of a failed run, with what went wrong.
    pub fn failed(job_id: String, detail: Option<String>) -> (r: Outcome)
        ensures
            r.wf(),
            r.job_id == job_id,
            r.result_status is Error,
            r.error_detail == detail,
    {
        Outcome { job_id, result_status: JobStatus::Error, error_detail: detail }
    }
}

} // verus!
