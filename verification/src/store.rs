//! The job store: durable record of jobs and their statuses, with the two
//! operations the coordinator's correctness rests on — an atomic claim that
//! hands each pending job to exactly one caller, and an idempotent status
//! write. This in-memory store is the reference semantics; a database-backed
//! adapter must behave the same way at this interface.

use vstd::prelude::*;
use crate::errors::OrchestratorError;
use crate::job::{status_can_advance, JobAnalysis, JobStatus, JobView};

verus! {

broadcast use vstd::seq_lib::group_seq_properties;

/// No two records share an id.
pub open spec fn distinct_ids(jobs: Seq<JobView>) -> bool {
    forall|i: int, j: int| 0 <= i < j < jobs.len() ==> jobs[i].id != jobs[j].id
}

/// Some record carries this id.
pub open spec fn has_id(jobs: Seq<JobView>, id: Seq<char>) -> bool {
    exists|i: int| 0 <= i < jobs.len() && jobs[i].id == id
}

/// Some record carries this id with this status.
pub open spec fn id_has_status(jobs: Seq<JobView>, id: Seq<char>, status: JobStatus) -> bool {
    exists|i: int| 0 <= i < jobs.len() && jobs[i].id == id && jobs[i].status == status
}

/// Some record carries this id with a status other than `Pending`.
pub open spec fn id_past_pending(jobs: Seq<JobView>, id: Seq<char>) -> bool {
    exists|i: int| 0 <= i < jobs.len() && jobs[i].id == id && !(jobs[i].status is Pending)
}

/// How many records are pending.
pub open spec fn count_pending(jobs: Seq<JobView>) -> nat
    decreases jobs.len(),
{
    if jobs.len() == 0 {
        0
    } else {
        (if jobs.first().status is Pending {
            1nat
        } else {
            0nat
        }) + count_pending(jobs.drop_first())
    }
}

/// What claiming up to `limit` jobs does: walking the records in order, each
/// pending one — while the budget lasts — turns `Running` and is returned;
/// everything else stays untouched. The result is the store afterwards and
/// the claimed records (already `Running`), in store order.
pub open spec fn spec_claim(jobs: Seq<JobView>, limit: nat) -> (Seq<JobView>, Seq<JobView>)
    decreases jobs.len(),
{
    if jobs.len() == 0 {
        (Seq::empty(), Seq::empty())
    } else {
        let first = jobs.first();
        if first.status is Pending && limit > 0 {
            let taken = first.with_status(JobStatus::Running);
            let rest = spec_claim(jobs.drop_first(), (limit - 1) as nat);
            (seq![taken] + rest.0, seq![taken] + rest.1)
        } else {
            let rest = spec_claim(jobs.drop_first(), limit);
            (seq![first] + rest.0, rest.1)
        }
    }
}

/// What a status write does: every record with this id — there is at most
/// one — takes the new status; every other record is untouched. Writing to
/// an absent id changes nothing, as a database `UPDATE` matching no row.
pub open spec fn spec_set_status(jobs: Seq<JobView>, id: Seq<char>, status: JobStatus) -> Seq<
    JobView,
> {
    Seq::new(
        jobs.len(),
        |i: int|
            if jobs[i].id == id {
                jobs[i].with_status(status)
            } else {
                jobs[i]
            },
    )
}

/// Record `i` of the store is where claimed record `k` came from: it was
/// pending, it is now running, and the claimed record is that very record.
pub open spec fn claim_witness(jobs: Seq<JobView>, limit: nat, k: int, i: int) -> bool {
    &&& 0 <= i < jobs.len()
    &&& jobs[i].status is Pending
    &&& spec_claim(jobs, limit).0[i].status is Running
    &&& spec_claim(jobs, limit).1[k] == spec_claim(jobs, limit).0[i]
}

/// The store index that claimed record `k` came from.
pub open spec fn claim_source(jobs: Seq<JobView>, limit: nat, k: int) -> int {
    choose|i: int| claim_witness(jobs, limit, k, i)
}

/// Claiming preserves every record's identity and payload, moves statuses
/// only from `Pending` to `Running`, and returns exactly
/// `min(limit, count_pending)` records, each one a pending record of the
/// store now marked `Running`.
pub proof fn lemma_claim_shape(jobs: Seq<JobView>, limit: nat)
    ensures
        ({
            let after = spec_claim(jobs, limit).0;
            let claimed = spec_claim(jobs, limit).1;
            &&& after.len() == jobs.len()
            &&& forall|i: int|
                0 <= i < jobs.len() ==> {
                    &&& (#[trigger] after[i]).id == jobs[i].id
                    &&& after[i].file_name == jobs[i].file_name
                    &&& after[i].file_hash == jobs[i].file_hash
                    &&& after[i].submitted_at == jobs[i].submitted_at
                    &&& (after[i].status == jobs[i].status || (jobs[i].status is Pending
                        && after[i].status is Running))
                }
            &&& claimed.len() == vstd::math::min(limit as int, count_pending(jobs) as int)
            &&& forall|k: int|
                0 <= k < claimed.len() ==> #[trigger] claim_witness(
                    jobs,
                    limit,
                    k,
                    claim_source(jobs, limit, k),
                )
        }),
    decreases jobs.len(),
{
    if jobs.len() == 0 {
    } else {
        let first = jobs.first();
        let rest = jobs.drop_first();
        let after = spec_claim(jobs, limit).0;
        let claimed = spec_claim(jobs, limit).1;
        if first.status is Pending && limit > 0 {
            lemma_claim_shape(rest, (limit - 1) as nat);
            assert forall|k: int| 0 <= k < claimed.len() implies #[trigger] claim_witness(
                jobs,
                limit,
                k,
                claim_source(jobs, limit, k),
            ) by {
                if k == 0 {
                    assert(claimed[0] == after[0]);
                    assert(claim_witness(jobs, limit, 0, 0));
                } else {
                    assert(claimed[k] == spec_claim(rest, (limit - 1) as nat).1[k - 1]);
                    assert(claim_witness(
                        rest,
                        (limit - 1) as nat,
                        k - 1,
                        claim_source(rest, (limit - 1) as nat, k - 1),
                    ));
                    let i0 = claim_source(rest, (limit - 1) as nat, k - 1);
                    assert(jobs[i0 + 1] == rest[i0]);
                    assert(after[i0 + 1] == spec_claim(rest, (limit - 1) as nat).0[i0]);
                    assert(claim_witness(jobs, limit, k, i0 + 1));
                }
                assert(exists|i: int| claim_witness(jobs, limit, k, i));
            }
        } else {
            lemma_claim_shape(rest, limit);
            assert forall|k: int| 0 <= k < claimed.len() implies #[trigger] claim_witness(
                jobs,
                limit,
                k,
                claim_source(jobs, limit, k),
            ) by {
                assert(claimed[k] == spec_claim(rest, limit).1[k]);
                assert(claim_witness(rest, limit, k, claim_source(rest, limit, k)));
                let i0 = claim_source(rest, limit, k);
                assert(jobs[i0 + 1] == rest[i0]);
                assert(after[i0 + 1] == spec_claim(rest, limit).0[i0]);
                assert(claim_witness(jobs, limit, k, i0 + 1));
                assert(exists|i: int| claim_witness(jobs, limit, k, i));
            }
        }
    }
}

/// A claim moves each record's status only forward — `Pending` to
/// `Running`, never back: each job's own status transitions are monotonic.
pub proof fn lemma_claim_monotonic(jobs: Seq<JobView>, limit: nat)
    ensures
        forall|i: int|
            0 <= i < jobs.len() ==> status_can_advance(
                jobs[i].status,
                (#[trigger] spec_claim(jobs, limit).0[i]).status,
            ),
{
    lemma_claim_shape(jobs, limit);
}

/// With distinct record ids, both the store after a claim and the claimed
/// records themselves have distinct ids: the claim is exclusive, so no job
/// can be handed out twice.
pub proof fn lemma_claim_distinct(jobs: Seq<JobView>, limit: nat)
    requires
        distinct_ids(jobs),
    ensures
        distinct_ids(spec_claim(jobs, limit).0),
        distinct_ids(spec_claim(jobs, limit).1),
    decreases jobs.len(),
{
    lemma_claim_shape(jobs, limit);
    if jobs.len() == 0 {
    } else {
        let first = jobs.first();
        let rest = jobs.drop_first();
        assert(distinct_ids(rest));
        let claimed = spec_claim(jobs, limit).1;
        if first.status is Pending && limit > 0 {
            lemma_claim_distinct(rest, (limit - 1) as nat);
            lemma_claim_shape(rest, (limit - 1) as nat);
            let rest_after = spec_claim(rest, (limit - 1) as nat).0;
            let rest_claimed = spec_claim(rest, (limit - 1) as nat).1;
            assert forall|k1: int, k2: int| 0 <= k1 < k2 < claimed.len() implies claimed[k1].id
                != claimed[k2].id by {
                if k1 == 0 {
                    assert(claim_witness(
                        rest,
                        (limit - 1) as nat,
                        k2 - 1,
                        claim_source(rest, (limit - 1) as nat, k2 - 1),
                    ));
                    let i0 = claim_source(rest, (limit - 1) as nat, k2 - 1);
                    assert(rest_claimed[k2 - 1] == rest_after[i0]);
                    assert(rest_after[i0].id == rest[i0].id);
                    assert(rest[i0].id == jobs[i0 + 1].id);
                    assert(claimed[k2].id == rest[i0].id);
                    assert(claimed[0].id == jobs[0].id);
                } else {
                    assert(claimed[k1] == rest_claimed[k1 - 1]);
                    assert(claimed[k2] == rest_claimed[k2 - 1]);
                }
            }
        } else {
            lemma_claim_distinct(rest, limit);
        }
    }
}

/// A store with no record pending has `count_pending` zero and vice versa.
pub proof fn lemma_count_pending_zero(jobs: Seq<JobView>)
    ensures
        (count_pending(jobs) == 0) <==> (forall|i: int|
            0 <= i < jobs.len() ==> !((#[trigger] jobs[i]).status is Pending)),
    decreases jobs.len(),
{
    if jobs.len() == 0 {
    } else {
        lemma_count_pending_zero(jobs.drop_first());
        assert(jobs.first() == jobs[0]);
        if count_pending(jobs) == 0 {
            assert forall|i: int| 0 <= i < jobs.len() implies !(
            (#[trigger] jobs[i]).status is Pending) by {
                if i > 0 {
                    assert(jobs.drop_first()[i - 1] == jobs[i]);
                    assert(!(jobs.drop_first()[i - 1].status is Pending));
                }
            }
        }
        if forall|i: int| 0 <= i < jobs.len() ==> !((#[trigger] jobs[i]).status is Pending) {
            assert forall|i: int| 0 <= i < jobs.drop_first().len() implies !(
            (#[trigger] jobs.drop_first()[i]).status is Pending) by {
                assert(jobs.drop_first()[i] == jobs[i + 1]);
            }
            assert(count_pending(jobs.drop_first()) == 0);
        }
    }
}

/// Claiming from a store with no pending job returns nothing and leaves the
/// store exactly as it was: an empty poll is a no-op, not an error.
pub proof fn lemma_claim_none_pending(jobs: Seq<JobView>, limit: nat)
    requires
        count_pending(jobs) == 0,
    ensures
        spec_claim(jobs, limit).1 == Seq::<JobView>::empty(),
        spec_claim(jobs, limit).0 == jobs,
{
    lemma_claim_shape(jobs, limit);
    lemma_count_pending_zero(jobs);
    let after = spec_claim(jobs, limit).0;
    let claimed = spec_claim(jobs, limit).1;
    assert(claimed =~= Seq::<JobView>::empty());
    assert forall|i: int| 0 <= i < jobs.len() implies after[i] == jobs[i] by {
        assert(after[i] =~= jobs[i]);
    }
    assert(after =~= jobs);
}

/// Writing the same status twice leaves the store exactly as one write does:
/// the status write is idempotent.
pub proof fn lemma_set_status_idempotent(jobs: Seq<JobView>, id: Seq<char>, status: JobStatus)
    ensures
        spec_set_status(spec_set_status(jobs, id, status), id, status) == spec_set_status(
            jobs,
            id,
            status,
        ),
{
    let once = spec_set_status(jobs, id, status);
    let twice = spec_set_status(once, id, status);
    assert forall|i: int| 0 <= i < jobs.len() implies twice[i] == once[i] by {
        if jobs[i].id == id {
            assert(twice[i] =~= once[i]);
        }
    }
    assert(twice =~= once);
}

/// A status write changes no record's id or payload, and no record other
/// than the addressed one.
pub proof fn lemma_set_status_frame(jobs: Seq<JobView>, id: Seq<char>, status: JobStatus)
    ensures
        spec_set_status(jobs, id, status).len() == jobs.len(),
        forall|i: int|
            0 <= i < jobs.len() ==> {
                &&& (#[trigger] spec_set_status(jobs, id, status)[i]).id == jobs[i].id
                &&& spec_set_status(jobs, id, status)[i].file_name == jobs[i].file_name
                &&& spec_set_status(jobs, id, status)[i].file_hash == jobs[i].file_hash
                &&& spec_set_status(jobs, id, status)[i].submitted_at == jobs[i].submitted_at
                &&& (jobs[i].id == id ==> spec_set_status(jobs, id, status)[i].status == status)
                &&& (jobs[i].id != id ==> spec_set_status(jobs, id, status)[i] == jobs[i])
            },
{
}

/// The durable record of jobs. The claim operation is the store's point of
/// cross-task atomicity: a job leaves `Pending` for exactly one caller.
pub struct JobStore {
    jobs: Vec<JobAnalysis>,
}

impl View for JobStore {
    type V = Seq<JobView>;

    closed spec fn view(&self) -> Seq<JobView> {
        self.jobs.deep_view()
    }
}

impl JobStore {
    /// Record ids never repeat.
    pub open spec fn wf(self) -> bool {
        distinct_ids(self@)
    }

    /// An empty store.
    pub fn new() -> (r: JobStore)
        ensures
            r.wf(),
            r@ == Seq::<JobView>::empty(),
    {
        let r = JobStore { jobs: Vec::new() };
        proof {
            assert(r@ =~= Seq::<JobView>::empty());
        }
        r
    }

    /// How many records the store holds.
    pub fn len(&self) -> (r: usize)
        ensures
            r == self@.len(),
    {
        self.jobs.len()
    }

    /// The index of the record with this id, if any.
    fn find_index(&self, job_id: &String) -> (r: Option<usize>)
        ensures
            match r {
                Some(i) => 0 <= i < self@.len() && self@[i as int].id == job_id@,
                None => !has_id(self@, job_id@),
            },
    {
        let mut i: usize = 0;
        while i < self.jobs.len()
            invariant
                i <= self@.len(),
                self@.len() == self.jobs@.len(),
                forall|k: int| 0 <= k < i ==> (#[trigger] self@[k]).id != job_id@,
            decreases self.jobs@.len() - i,
        {
            if self.jobs[i].id.eq(job_id) {
                return Some(i);
            }
            i = i + 1;
        }
        None
    }

    /// The status of the job with this id, if the store knows the id.
    pub fn status_of(&self, job_id: &String) -> (r: Option<JobStatus>)
        requires
            self.wf(),
        ensures
            match r {
                Some(status) => id_has_status(self@, job_id@, status),
                None => !has_id(self@, job_id@),
            },
    {
        match self.find_index(job_id) {
            Some(i) => Some(self.jobs[i].status),
            None => None,
        }
    }

    /// Records a new job. The id must be fresh: a duplicate is rejected
    /// whole, as a database unique-key violation would be, and the store is
    /// left unchanged. Otherwise the job is appended and its id returned.
    pub fn insert(&mut self, job: JobAnalysis) -> (r: Result<String, OrchestratorError>)
        requires
            old(self).wf(),
        ensures
            final(self).wf(),
            has_id(old(self)@, job@.id) ==> {
                &&& r matches Err(e) && e == OrchestratorError::DuplicateJob
                &&& final(self)@ == old(self)@
            },
            !has_id(old(self)@, job@.id) ==> {
                &&& final(self)@ == old(self)@.push(job@)
                &&& r matches Ok(id) && id@ == job@.id
            },
    {
        match self.find_index(&job.id) {
            Some(_) => Err(OrchestratorError::DuplicateJob),
            None => {
                let id = job.id.clone();
                let ghost before = self@;
                self.jobs.push(job);
                proof {
                    assert(self@ =~= before.push(job@));
                    assert forall|i: int, j: int| 0 <= i < j < self@.len() implies self@[i].id
                        != self@[j].id by {
                        if j == self@.len() - 1 {
                            assert(!has_id(before, job@.id));
                            assert(before[i].id != job@.id);
                        }
                    }
                }
                Ok(id)
            },
        }
    }

    /// Writes this job's status: idempotent, a no-op on an unknown id.
    pub fn set_status(&mut self, job_id: &String, status: JobStatus)
        requires
            old(self).wf(),
        ensures
            final(self).wf(),
            final(self)@ == spec_set_status(old(self)@, job_id@, status),
    {
        let ghost orig = self@;
        let ghost orig_vec = self.jobs@;
        let n = self.jobs.len();
        let mut i: usize = 0;
        while i < n
            invariant
                i <= n,
                n == self.jobs@.len(),
                orig.len() == n,
                self.jobs@.skip(i as int) == orig_vec.skip(i as int),
                orig_vec.len() == n,
                forall|k: int| 0 <= k < n ==> orig[k] == (#[trigger] orig_vec[k])@,
                forall|k: int|
                    0 <= k < i ==> (#[trigger] self.jobs@[k])@ == spec_set_status(
                        orig,
                        job_id@,
                        status,
                    )[k],
            decreases n - i,
        {
            proof {
                assert(self.jobs@[i as int] == orig_vec.skip(i as int)[0]);
                assert(self.jobs@[i as int] == orig_vec[i as int]);
            }
            if self.jobs[i].id.eq(job_id) {
                let elem = &mut self.jobs[i];
                elem.status = status;
                proof {
                    assert(self.jobs@[i as int]@ =~= orig[i as int].with_status(status));
                    assert(self.jobs@.skip(i as int + 1) =~= orig_vec.skip(i as int + 1));
                }
            } else {
                proof {
                    assert(self.jobs@.skip(i as int + 1) =~= orig_vec.skip(i as int + 1));
                }
            }
            i = i + 1;
        }
        proof {
            assert(self@ =~= spec_set_status(orig, job_id@, status));
            lemma_set_status_frame(orig, job_id@, status);
        }
    }

    /// Atomically claims up to `limit` pending jobs: walking the records in
    /// order, each pending one — while the budget lasts — turns `Running`
    /// and is returned. Concurrent callers can never receive the same job,
    /// because a job is only returned by the very write that moves it out of
    /// `Pending`. With nothing pending, the result is empty, not an error.
    pub fn claim_pending(&mut self, limit: usize) -> (r: Vec<JobAnalysis>)
        requires
            old(self).wf(),
        ensures
            final(self).wf(),
            final(self)@ == spec_claim(old(self)@, limit as nat).0,
            r.deep_view() == spec_claim(old(self)@, limit as nat).1,
            r@.len() <= limit,
    {
        let ghost orig = self@;
        let ghost orig_vec = self.jobs@;
        let n = self.jobs.len();
        let mut claimed: Vec<JobAnalysis> = Vec::new();
        let mut i: usize = 0;
        proof {
            assert(orig.skip(0) =~= orig);
            assert(orig_vec.skip(0) =~= orig_vec);
            assert(self.jobs.deep_view().take(0) =~= Seq::<JobView>::empty());
            assert(claimed.deep_view() =~= Seq::<JobView>::empty());
        }
        while i < n
            invariant
                i <= n,
                n == self.jobs@.len(),
                orig.len() == n,
                orig_vec.len() == n,
                claimed@.len() <= limit,
                forall|k: int| 0 <= k < n ==> orig[k] == (#[trigger] orig_vec[k])@,
                self.jobs@.skip(i as int) == orig_vec.skip(i as int),
                spec_claim(orig, limit as nat).0 == self.jobs.deep_view().take(i as int)
                    + spec_claim(orig.skip(i as int), (limit - claimed@.len()) as nat).0,
                spec_claim(orig, limit as nat).1 == claimed.deep_view() + spec_claim(
                    orig.skip(i as int),
                    (limit - claimed@.len()) as nat,
                ).1,
            decreases n - i,
        {
            let ghost pre_suffix = orig.skip(i as int);
            let ghost rem = (limit - claimed@.len()) as nat;
            proof {
                assert(self.jobs@[i as int] == orig_vec.skip(i as int)[0]);
                assert(self.jobs@[i as int] == orig_vec[i as int]);
                assert(pre_suffix.len() == n - i);
                assert(pre_suffix.first() == orig[i as int]);
                assert(pre_suffix.drop_first() =~= orig.skip(i as int + 1));
            }
            let is_pending = match self.jobs[i].status {
                JobStatus::Pending => true,
                _ => false,
            };
            if is_pending && claimed.len() < limit {
                let ghost old_jobs_dv = self.jobs.deep_view();
                let elem = &mut self.jobs[i];
                elem.status = JobStatus::Running;
                let dup = self.jobs[i].duplicate();
                claimed.push(dup);
                proof {
                    let taken = pre_suffix.first().with_status(JobStatus::Running);
                    assert(self.jobs@[i as int]@ =~= taken);
                    assert(self.jobs@.skip(i as int + 1) =~= orig_vec.skip(i as int + 1));
                    assert(self.jobs.deep_view().take(i as int + 1) =~= old_jobs_dv.take(i as int)
                        + seq![taken]);
                    assert(claimed.deep_view() =~= claimed.deep_view().drop_last().push(taken));
                    assert(spec_claim(orig, limit as nat).0 =~= self.jobs.deep_view().take(
                        i as int + 1,
                    ) + spec_claim(orig.skip(i as int + 1), (limit - claimed@.len()) as nat).0);
                    assert(spec_claim(orig, limit as nat).1 =~= claimed.deep_view() + spec_claim(
                        orig.skip(i as int + 1),
                        (limit - claimed@.len()) as nat,
                    ).1);
                }
            } else {
                proof {
                    assert(self.jobs@.skip(i as int + 1) =~= orig_vec.skip(i as int + 1));
                    assert(self.jobs.deep_view().take(i as int + 1) =~= self.jobs.deep_view().take(
                        i as int,
                    ) + seq![pre_suffix.first()]);
                    assert(spec_claim(orig, limit as nat).0 =~= self.jobs.deep_view().take(
                        i as int + 1,
                    ) + spec_claim(orig.skip(i as int + 1), (limit - claimed@.len()) as nat).0);
                    assert(spec_claim(orig, limit as nat).1 =~= claimed.deep_view() + spec_claim(
                        orig.skip(i as int + 1),
                        (limit - claimed@.len()) as nat,
                    ).1);
                }
            }
            i = i + 1;
        }
        proof {
            assert(orig.skip(n as int) =~= Seq::<JobView>::empty());
            assert(self.jobs.deep_view().take(n as int) =~= self.jobs.deep_view());
            assert(spec_claim(orig, limit as nat).0 =~= self@);
            assert(spec_claim(orig, limit as nat).1 =~= claimed.deep_view());
            lemma_claim_shape(orig, limit as nat);
            lemma_claim_distinct(orig, limit as nat);
        }
        claimed
    }
}

} // verus!
