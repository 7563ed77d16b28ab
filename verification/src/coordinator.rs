//! The coordinator: the top-level scheduler. On each tick it first drains
//! the completion channel and persists every buffered outcome, then claims
//! as many pending jobs as the limiter has free slots, and spawns one
//! executor per claimed job. Between ticks, the surrounding runtime performs
//! the sandbox work the executors ask for and reports back through
//! [`Coordinator::deliver`].

use vstd::prelude::*;
use crate::executor::{steps_to, ExecAction, ExecEvent, Executor};
use crate::job::{JobAnalysis, JobStatus, JobView, Outcome};
use crate::limiter::Limiter;
use crate::store::{
    claim_source, claim_witness, count_pending, distinct_ids, id_past_pending, lemma_claim_distinct,
    lemma_claim_shape, lemma_set_status_frame, spec_claim, spec_set_status, JobStore,
};
use crate::errors::OrchestratorError;

verus! {

broadcast use vstd::seq_lib::group_seq_properties;

/// How many executors in the sequence are still live (not terminal).
pub open spec fn active_count(execs: Seq<Executor>) -> nat
    decreases execs.len(),
{
    if execs.len() == 0 {
        0
    } else {
        active_count(execs.drop_last()) + if execs.last().phase.is_terminal() {
            0nat
        } else {
            1nat
        }
    }
}

/// Replacing one executor changes the live count by exactly the change in
/// that executor's liveness, and a live executor means the count is positive.
pub proof fn lemma_active_count_update(execs: Seq<Executor>, i: int, e: Executor)
    requires
        0 <= i < execs.len(),
    ensures
        !execs[i].phase.is_terminal() ==> active_count(execs) >= 1,
        (execs[i].phase.is_terminal() == e.phase.is_terminal()) ==> active_count(
            execs.update(i, e),
        ) == active_count(execs),
        (!execs[i].phase.is_terminal() && e.phase.is_terminal()) ==> active_count(
            execs.update(i, e),
        ) + 1 == active_count(execs),
        (execs[i].phase.is_terminal() && !e.phase.is_terminal()) ==> active_count(
            execs.update(i, e),
        ) == active_count(execs) + 1,
    decreases execs.len(),
{
    let n = execs.len() as int;
    if i == n - 1 {
        assert(execs.update(i, e).drop_last() =~= execs.drop_last());
        assert(execs.update(i, e).last() == e);
    } else {
        lemma_active_count_update(execs.drop_last(), i, e);
        assert(execs.update(i, e).drop_last() =~= execs.drop_last().update(i, e));
        assert(execs.update(i, e).last() == execs.last());
        assert(execs.drop_last()[i] == execs[i]);
    }
}

/// Appending an executor adds one to the live count when it is live.
pub proof fn lemma_active_count_push(execs: Seq<Executor>, e: Executor)
    ensures
        active_count(execs.push(e)) == active_count(execs) + if e.phase.is_terminal() {
            0nat
        } else {
            1nat
        },
{
    assert(execs.push(e).drop_last() =~= execs);
    assert(execs.push(e).last() == e);
}

/// The scheduler's whole state: the job store, the admission gate, the
/// executors spawned so far, and the completion channel buffer.
pub struct Coordinator {
    /// The durable job records.
    pub store: JobStore,
    /// The admission gate bounding concurrent executors.
    pub limiter: Limiter,
    /// Every executor spawned so far, live and finished.
    pub executors: Vec<Executor>,
    /// Outcomes delivered by executors and not yet persisted.
    pub channel: Vec<Outcome>,
}

impl Coordinator {
    /// The scheduler's invariant, preserved by every operation:
    /// the store's ids are distinct; the limiter is within capacity and its
    /// held slots count exactly the live executors; every executor is
    /// well-formed, past `Claimed`, holds a job the store knows and has
    /// moved out of `Pending`, and no two executors hold the same job; and
    /// every buffered outcome carries a terminal status.
    pub open spec fn wf(self) -> bool {
        &&& self.store.wf()
        &&& self.limiter.wf()
        &&& self.limiter.in_use == active_count(self.executors@)
        &&& forall|i: int|
            0 <= i < self.executors@.len() ==> (#[trigger] self.executors@[i]).wf()
        &&& forall|i: int|
            0 <= i < self.executors@.len() ==> !((#[trigger] self.executors@[i]).phase is Claimed)
        &&& forall|i: int, j: int|
            0 <= i < j < self.executors@.len() ==> self.executors@[i].job_id@
                != self.executors@[j].job_id@
        &&& forall|i: int|
            0 <= i < self.executors@.len() ==> id_past_pending(
                self.store@,
                (#[trigger] self.executors@[i]).job_id@,
            )
        &&& forall|k: int| 0 <= k < self.channel@.len() ==> (#[trigger] self.channel@[k]).wf()
    }

    /// A fresh scheduler over an empty store, admitting at most `capacity`
    /// concurrent executors.
    pub fn new(capacity: usize) -> (r: Coordinator)
        ensures
            r.wf(),
            r.store@ == Seq::<JobView>::empty(),
            r.limiter.capacity == capacity,
            r.limiter.in_use == 0,
            r.executors@ == Seq::<Executor>::empty(),
            r.channel@ == Seq::<Outcome>::empty(),
    {
        Coordinator {
            store: JobStore::new(),
            limiter: Limiter::new(capacity),
            executors: Vec::new(),
            channel: Vec::new(),
        }
    }

    /// Accepts a submitted job into the store with status `Pending`. A job
    /// whose id the store already knows is rejected whole.
    pub fn submit(&mut self, job: JobAnalysis) -> (r: Result<String, OrchestratorError>)
        requires
            old(self).wf(),
            job@.status is Pending,
        ensures
            final(self).wf(),
            final(self).executors == old(self).executors,
            final(self).channel == old(self).channel,
            final(self).limiter == old(self).limiter,
            crate::store::has_id(old(self).store@, job@.id) ==> {
                &&& r matches Err(e) && e == OrchestratorError::DuplicateJob
                &&& final(self).store@ == old(self).store@
            },
            !crate::store::has_id(old(self).store@, job@.id) ==> {
                &&& final(self).store@ == old(self).store@.push(job@)
                &&& r matches Ok(id) && id@ == job@.id
            },
    {
        let ghost store0 = self.store@;
        let r = self.store.insert(job);
        proof {
            if !crate::store::has_id(store0, job@.id) {
                assert forall|i: int| 0 <= i < self.executors@.len() implies id_past_pending(
                    self.store@,
                    (#[trigger] self.executors@[i]).job_id@,
                ) by {
                    let id = self.executors@[i].job_id@;
                    let w = choose|k: int|
                        0 <= k < store0.len() && store0[k].id == id && !(
                        store0[k].status is Pending);
                    assert(self.store@[w].id == id && !(self.store@[w].status is Pending));
                }
            }
        }
        r
    }

    /// One scheduling tick. First every buffered outcome is persisted, in
    /// receipt order — status writes never starve under load. Then up to
    /// `available_slots` pending jobs are claimed and an executor is spawned
    /// for each, holding one limiter slot; the returned ids are the claimed
    /// jobs, in store order, and the caller must now allocate a sandbox for
    /// each and report the results through `deliver`. With nothing pending,
    /// no executor is spawned and the tick is a no-op beyond the drain.
    pub fn tick(&mut self) -> (r: Vec<String>)
        requires
            old(self).wf(),
        ensures
            final(self).wf(),
            final(self).channel@ == Seq::<Outcome>::empty(),
            final(self).limiter.capacity == old(self).limiter.capacity,
            ({
                let drained = spec_drain(old(self).store@, old(self).channel@);
                let avail = old(self).limiter.capacity - old(self).limiter.in_use;
                let claimed = spec_claim(drained, avail as nat).1;
                &&& final(self).store@ == spec_claim(drained, avail as nat).0
                &&& claimed.len() <= avail
                &&& r@.len() == claimed.len()
                &&& forall|k: int|
                    0 <= k < claimed.len() ==> r.deep_view()[k] == (#[trigger] claimed[k]).id
                &&& final(self).executors@.len() == old(self).executors@.len() + claimed.len()
                &&& forall|i: int|
                    0 <= i < old(self).executors@.len() ==> final(self).executors@[i] == old(
                        self,
                    ).executors@[i]
                &&& forall|k: int|
                    0 <= k < claimed.len() ==> {
                        &&& (#[trigger] final(self).executors@[old(self).executors@.len()
                            + k]).phase is Provisioning
                        &&& final(self).executors@[old(self).executors@.len() + k].job_id@
                            == claimed[k].id
                    }
                &&& final(self).limiter.in_use == old(self).limiter.in_use + claimed.len()
            }),
    {
        let ghost store0 = self.store@;
        let ghost chan0 = self.channel@;
        let ghost execs0 = self.executors@;

        // Drain the completion channel: persist every outcome in order.
        let n = self.channel.len();
        let mut k: usize = 0;
        proof {
            assert(chan0.take(0) =~= Seq::<Outcome>::empty());
        }
        while k < n
            invariant
                k <= n,
                n == self.channel@.len(),
                self.channel@ == chan0,
                self.executors@ == execs0,
                self.limiter == old(self).limiter,
                old(self).wf(),
                self.store.wf(),
                self.store@ == spec_drain(store0, chan0.take(k as int)),
                forall|m: int| 0 <= m < chan0.len() ==> (#[trigger] chan0[m]).wf(),
                forall|i: int|
                    0 <= i < execs0.len() ==> id_past_pending(
                        self.store@,
                        (#[trigger] execs0[i]).job_id@,
                    ),
            decreases n - k,
        {
            let ghost pre = self.store@;
            let status = self.channel[k].result_status;
            self.store.set_status(&self.channel[k].job_id, status);
            proof {
                let oc = chan0[k as int];
                assert(chan0.take(k as int + 1).drop_last() =~= chan0.take(k as int));
                assert(chan0.take(k as int + 1).last() == oc);
                lemma_set_status_frame(pre, oc.job_id@, status);
                assert forall|i: int| 0 <= i < execs0.len() implies id_past_pending(
                    self.store@,
                    (#[trigger] execs0[i]).job_id@,
                ) by {
                    let id = execs0[i].job_id@;
                    let w = choose|m: int|
                        0 <= m < pre.len() && pre[m].id == id && !(pre[m].status is Pending);
                    assert(self.store@[w].id == id);
                    assert(oc.wf());
                    assert(!(self.store@[w].status is Pending));
                }
            }
            k = k + 1;
        }
        proof {
            assert(chan0.take(n as int) =~= chan0);
        }
        self.channel.clear();

        // Claim as much pending work as the limiter can admit right now.
        let ghost drained = self.store@;
        let avail = self.limiter.available_slots();
        let claimed = self.store.claim_pending(avail);
        let ghost cl = spec_claim(drained, avail as nat).1;
        proof {
            lemma_claim_shape(drained, avail as nat);
            lemma_claim_distinct(drained, avail as nat);
        }

        // Spawn one executor per claimed job, each holding a limiter slot.
        let ghost in_use0 = self.limiter.in_use as int;
        let mut spawned: Vec<String> = Vec::new();
        let mut j: usize = 0;
        while j < claimed.len()
            invariant
                j <= claimed.len(),
                claimed.deep_view() == cl,
                claimed@.len() == cl.len(),
                cl.len() <= avail,
                cl == spec_claim(drained, avail as nat).1,
                avail == self.limiter.capacity - in_use0,
                self.limiter.capacity == old(self).limiter.capacity,
                self.limiter.in_use == in_use0 + j,
                self.limiter.wf(),
                self.limiter.in_use == active_count(self.executors@),
                self.store.wf(),
                self.store@ == spec_claim(drained, avail as nat).0,
                self.channel@ == Seq::<Outcome>::empty(),
                distinct_ids(drained),
                old(self).wf(),
                self.executors@.len() == execs0.len() + j,
                forall|i: int| 0 <= i < execs0.len() ==> self.executors@[i] == execs0[i],
                forall|i: int|
                    0 <= i < execs0.len() ==> id_past_pending(
                        drained,
                        (#[trigger] execs0[i]).job_id@,
                    ),
                forall|m: int|
                    0 <= m < j ==> {
                        &&& (#[trigger] self.executors@[execs0.len() + m]).wf()
                        &&& self.executors@[execs0.len() + m].phase is Provisioning
                        &&& self.executors@[execs0.len() + m].job_id@ == cl[m].id
                    },
                spawned@.len() == j,
                forall|m: int| 0 <= m < j ==> (#[trigger] spawned.deep_view()[m]) == cl[m].id,
            decreases claimed.len() - j,
        {
            proof {
                assert(claimed.deep_view()[j as int] == cl[j as int]);
                assert(claimed@[j as int]@ == cl[j as int]);
            }
            let admitted = self.limiter.try_acquire();
            assert(admitted);
            let mut ex = Executor::new(claimed[j].id.clone());
            ex.begin();
            let ghost before_push = self.executors@;
            let ghost spawned0 = spawned.deep_view();
            self.executors.push(ex);
            spawned.push(claimed[j].id.clone());
            proof {
                lemma_active_count_push(before_push, ex);
                assert(self.executors@[execs0.len() + j as int] == ex);
                assert(ex.job_id@ == cl[j as int].id);
                assert forall|m: int| 0 <= m < j + 1 implies (#[trigger] spawned.deep_view()[m])
                    == cl[m].id by {
                    if m < j {
                        assert(spawned@[m] == spawned@.drop_last()[m]);
                        assert(spawned.deep_view()[m] == spawned0[m]);
                    } else {
                        assert(spawned.deep_view()[m] == spawned@[m]@);
                        assert(spawned@[m]@ == cl[m].id);
                    }
                }
            }
            j = j + 1;
        }

        // The invariant holds again: every new executor holds a distinct,
        // freshly claimed id that is now `Running` in the store.
        proof {
            let avail_n = avail as nat;
            lemma_claim_shape(drained, avail_n);
            lemma_claim_distinct(drained, avail_n);
            assert forall|i: int|
                0 <= i < self.executors@.len() implies ((#[trigger] self.executors@[i]).wf() && !(
            self.executors@[i].phase is Claimed)) by {
                if i < execs0.len() {
                    assert(self.executors@[i] == execs0[i]);
                    assert(old(self).executors@[i] == execs0[i]);
                    assert((old(self).executors@[i]).wf());
                } else {
                    let m = i - execs0.len();
                    assert((self.executors@[execs0.len() + m]).wf());
                    assert(self.executors@[execs0.len() + m].phase is Provisioning);
                }
            }
            assert forall|i: int, jj: int|
                0 <= i < jj < self.executors@.len() implies self.executors@[i].job_id@
                != self.executors@[jj].job_id@ by {
                if jj >= execs0.len() {
                    let kj = jj - execs0.len();
                    assert(self.executors@[execs0.len() + kj].job_id@ == cl[kj].id);
                    assert(claim_witness(drained, avail_n, kj, claim_source(drained, avail_n, kj)));
                    let wj = claim_source(drained, avail_n, kj);
                    assert(cl[kj] == spec_claim(drained, avail_n).0[wj]);
                    assert((spec_claim(drained, avail_n).0[wj]).id == drained[wj].id);
                    assert(drained[wj].status is Pending);
                    if i >= execs0.len() {
                        let ki = i - execs0.len();
                        assert(self.executors@[execs0.len() + ki].job_id@ == cl[ki].id);
                        assert(distinct_ids(cl));
                    } else {
                        let id = execs0[i].job_id@;
                        assert(id_past_pending(drained, id));
                        let w = choose|m: int|
                            0 <= m < drained.len() && drained[m].id == id && !(
                            drained[m].status is Pending);
                        if id == cl[kj].id {
                            assert(drained[w].id == drained[wj].id);
                            assert(w == wj);
                        }
                    }
                } else {
                    assert(self.executors@[i] == execs0[i]);
                    assert(self.executors@[jj] == execs0[jj]);
                    assert(old(self).executors@[i].job_id@ != old(self).executors@[jj].job_id@);
                }
            }
            assert forall|i: int| 0 <= i < self.executors@.len() implies id_past_pending(
                self.store@,
                (#[trigger] self.executors@[i]).job_id@,
            ) by {
                if i >= execs0.len() {
                    let ki = i - execs0.len();
                    assert(self.executors@[execs0.len() + ki].job_id@ == cl[ki].id);
                    assert(claim_witness(drained, avail_n, ki, claim_source(drained, avail_n, ki)));
                    let w = claim_source(drained, avail_n, ki);
                    assert(cl[ki] == spec_claim(drained, avail_n).0[w]);
                    assert((spec_claim(drained, avail_n).0[w]).id == drained[w].id);
                    assert(self.store@[w].id == drained[w].id);
                    assert(self.store@[w].status is Running);
                    assert(self.store@[w].id == cl[ki].id);
                } else {
                    let id = execs0[i].job_id@;
                    assert(id_past_pending(drained, id));
                    let w = choose|m: int|
                        0 <= m < drained.len() && drained[m].id == id && !(
                        drained[m].status is Pending);
                    assert((spec_claim(drained, avail_n).0[w]).id == drained[w].id);
                    assert(self.store@[w].id == id);
                    assert(!(self.store@[w].status is Pending));
                }
            }
        }
        spawned
    }

    /// Routes one event to the executor at index `i`. A live transition
    /// returns the sandbox work to perform next; the terminal transition
    /// instead buffers the executor's single outcome on the completion
    /// channel, releases its limiter slot, and returns nothing.
    pub fn deliver(&mut self, i: usize, ev: ExecEvent) -> (r: Option<ExecAction>)
        requires
            old(self).wf(),
            i < old(self).executors@.len(),
            old(self).executors@[i as int].applicable(ev),
        ensures
            final(self).wf(),
            final(self).store@ == old(self).store@,
            final(self).limiter.capacity == old(self).limiter.capacity,
            final(self).executors@ == old(self).executors@.update(
                i as int,
                final(self).executors@[i as int],
            ),
            ({
                let pre = old(self).executors@[i as int];
                let post = final(self).executors@[i as int];
                &&& post.wf()
                &&& post.rank() < pre.rank()
                &&& post.job_id == pre.job_id
                &&& post.phase.is_terminal() ==> {
                    &&& r is None
                    &&& final(self).channel@.len() == old(self).channel@.len() + 1
                    &&& final(self).channel@.take(old(self).channel@.len() as int) == old(
                        self,
                    ).channel@
                    &&& steps_to(pre, ev, post, ExecAction::Emit(final(self).channel@.last()))
                    &&& final(self).limiter.in_use + 1 == old(self).limiter.in_use
                }
                &&& !post.phase.is_terminal() ==> {
                    &&& r matches Some(act) && steps_to(pre, ev, post, act)
                    &&& final(self).channel@ == old(self).channel@
                    &&& final(self).limiter.in_use == old(self).limiter.in_use
                }
            }),
    {
        let ghost execs0 = self.executors@;
        let ghost pre = self.executors@[i as int];
        let e = &mut self.executors[i];
        let act = e.handle_event(ev);
        let ghost post = self.executors@[i as int];
        proof {
            crate::executor::lemma_executor_progress(pre, ev, post, act);
            lemma_active_count_update(execs0, i as int, post);
            assert forall|a: int, b: int|
                0 <= a < b < self.executors@.len() implies self.executors@[a].job_id@
                != self.executors@[b].job_id@ by {
                assert(execs0[a].job_id@ != execs0[b].job_id@);
            }
            assert forall|a: int| 0 <= a < self.executors@.len() implies id_past_pending(
                self.store@,
                (#[trigger] self.executors@[a]).job_id@,
            ) by {
                assert(id_past_pending(self.store@, execs0[a].job_id@));
            }
        }
        match act {
            ExecAction::Emit(outcome) => {
                proof {
                    assert(outcome.result_status.is_terminal());
                    if outcome.error_detail is Some {
                        assert(pre.pending_error is Some);
                        assert(pre.pending_status == Some(JobStatus::Error));
                    }
                    assert(outcome.wf());
                }
                let ghost chan_before = self.channel@;
                self.channel.push(outcome);
                self.limiter.release();
                proof {
                    assert(self.channel@.take(chan_before.len() as int) =~= chan_before);
                }
                None
            },
            other => Some(other),
        }
    }

    /// The index of the executor owning this job id, if one exists.
    pub fn executor_index(&self, job_id: &String) -> (r: Option<usize>)
        ensures
            match r {
                Some(i) => i < self.executors@.len() && self.executors@[i as int].job_id@
                    == job_id@,
                None => forall|i: int|
                    0 <= i < self.executors@.len() ==> (#[trigger] self.executors@[i]).job_id@
                        != job_id@,
            },
    {
        let mut i: usize = 0;
        while i < self.executors.len()
            invariant
                i <= self.executors@.len(),
                forall|m: int|
                    0 <= m < i ==> (#[trigger] self.executors@[m]).job_id@ != job_id@,
            decreases self.executors@.len() - i,
        {
            if self.executors[i].job_id.eq(job_id) {
                return Some(i);
            }
            i = i + 1;
        }
        None
    }
}

/// What draining the channel does to the store: every buffered outcome is
/// applied as a status write, in receipt order.
pub open spec fn spec_drain(jobs: Seq<JobView>, outs: Seq<Outcome>) -> Seq<JobView>
    decreases outs.len(),
{
    if outs.len() == 0 {
        jobs
    } else {
        spec_set_status(
            spec_drain(jobs, outs.drop_last()),
            outs.last().job_id@,
            outs.last().result_status,
        )
    }
}

/// No two executors — in particular, no two live ones — ever hold the same
/// job id: a job is claimed exactly once, every spawned executor keeps the
/// claimed id, and a finished job never returns to `Pending`, so its id can
/// never be claimed again. Every coordinator operation preserves `wf`, so
/// this holds in every reachable state.
pub proof fn lemma_no_double_dispatch(c: Coordinator, i: int, j: int)
    requires
        c.wf(),
        0 <= i < j < c.executors@.len(),
    ensures
        c.executors@[i].job_id@ != c.executors@[j].job_id@,
{
}

/// The limiter's bound is real: at most `capacity` executors — and with
/// them, provisioned sandboxes — are ever live at once, for any burst of
/// claimed jobs. Every coordinator operation preserves `wf`, so this holds
/// in every reachable state.
pub proof fn lemma_bounded_concurrency(c: Coordinator)
    requires
        c.wf(),
    ensures
        active_count(c.executors@) <= c.limiter.capacity,
{
}

} // verus!
