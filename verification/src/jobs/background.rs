//! The pool slow work is handed to, and the jobs whose answers still matter.

use vstd::prelude::*;

use super::in_flight::{of_kind, InFlight, Kind, TrackedJob};
use super::{
    law_a_cancelled_job_is_never_heard_of, lemma_queued_at, Job, JobId, Pool, Queued, Worker,
};

verus! {

/// The pool, once there is one, and every job whose answer is wanted.
#[derive(Debug, PartialEq, Eq)]
pub struct Background {
    pub worker: Option<Worker>,
    pub in_flight: InFlight,
}

/// The state of the slow work as the contracts speak of it.
#[verifier::ext_equal]
pub struct Effort {
    pub pool: Option<Pool>,
    /// The jobs whose answers are wanted, and what each is for.
    pub out: Map<JobId, TrackedJob>,
}

impl Effort {
    /// The id a submission gets: none without a pool.
    pub open spec fn next(self) -> Option<JobId> {
        match self.pool {
            Some(pool) => Some(pool.next()),
            None => None,
        }
    }

    /// After a submission, whose answer is then wanted. Without a pool nothing
    /// happens.
    pub open spec fn with_job(self, job: Job, what: TrackedJob) -> Effort {
        match self.pool {
            Some(pool) => Effort {
                pool: Some(pool.with_job(job)),
                out: self.out.insert(pool.next(), what),
            },
            None => self,
        }
    }

    /// After several submissions, in order.
    pub open spec fn with_jobs(self, jobs: Seq<(Job, TrackedJob)>) -> Effort
        decreases jobs.len(),
    {
        if jobs.len() == 0 {
            self
        } else {
            self.with_jobs(jobs.drop_last()).with_job(jobs.last().0, jobs.last().1)
        }
    }

    /// After the answer to a job stopped mattering: its id is forgotten, and the
    /// pool is told. A job nobody waits for is left alone.
    pub open spec fn without(self, id: JobId) -> Effort {
        if self.out.contains_key(id) {
            Effort {
                pool: match self.pool {
                    Some(pool) => Some(pool.without(id)),
                    None => None,
                },
                out: self.out.remove(id),
            }
        } else {
            self
        }
    }

    /// After several answers stopped mattering, in order.
    pub open spec fn without_each(self, ids: Seq<JobId>) -> Effort
        decreases ids.len(),
    {
        if ids.len() == 0 {
            self
        } else {
            self.without_each(ids.drop_last()).without(ids.last())
        }
    }

    /// Whether `next` is this without any job of `kind`, given up in some order.
    pub open spec fn without_kind(self, kind: Kind, next: Effort) -> bool {
        exists|ids: Seq<JobId>| #[trigger]
            is_listing(ids, of_kind(self.out, kind)) && next == self.without_each(ids)
    }

    /// Whether every id that is out was handed out by the pool before. That is
    /// promised until the ids start over.
    pub open spec fn is_ordered(self) -> bool {
        self.pool matches Some(pool) ==> pool.started_over || forall|id: JobId| #[trigger]
            self.out.contains_key(id) ==> id.number < pool.next_id
    }

    /// Whether there is a pool that can hand out `n` more ids before they start
    /// over.
    pub open spec fn has_ids(self, n: nat) -> bool {
        self.pool matches Some(pool) && !pool.started_over && pool.next_id + n <= u64::MAX
    }

    /// How many jobs of `kind` are out.
    pub open spec fn count(self, kind: Kind) -> nat {
        of_kind(self.out, kind).len()
    }
}

/// Whether `ids` holds exactly the ids of a set, each once.
pub open spec fn is_listing(ids: Seq<JobId>, set: Set<JobId>) -> bool {
    ids.no_duplicates() && ids.to_set() == set
}

impl View for Background {
    type V = Effort;

    open spec fn view(&self) -> Effort {
        Effort {
            pool: match self.worker {
                Some(worker) => Some(worker@),
                None => None,
            },
            out: self.in_flight@,
        }
    }
}

impl Background {
    pub open spec fn wf(self) -> bool {
        &&& self.in_flight.wf()
        &&& self.worker matches Some(worker) ==> worker.wf()
        &&& self@.is_ordered()
    }

    /// Nothing out, and no pool to hand anything to.
    pub fn new() -> (work: Background)
        ensures
            work.wf(),
            work@ == (Effort { pool: None, out: Map::empty() }),
    {
        Background { worker: None, in_flight: InFlight::new() }
    }

    /// Hands `job` over and remembers what its answer is for. Without a pool
    /// nothing was started, and there is no id.
    pub fn submit(&mut self, job: Job, what: TrackedJob) -> (id: Option<JobId>)
        requires
            old(self).wf(),
        ensures
            final(self).wf(),
            id == old(self)@.next(),
            final(self)@ == old(self)@.with_job(job, what),
    {
        match self.worker.take() {
            Some(worker) => {
                let mut worker = worker;
                let id = worker.submit(job);
                self.worker = Some(worker);
                self.in_flight.track(id, what);
                Some(id)
            },
            None => None,
        }
    }

    /// Hands the oldest job to a free thread.
    pub fn next_job(&mut self) -> (task: Option<Queued>)
        requires
            old(self).wf(),
        ensures
            final(self).wf(),
            task == (match old(self)@.pool {
                Some(pool) => pool.first(),
                None => None,
            }),
            final(self)@ == (match (old(self)@.pool, task) {
                (Some(pool), Some(_)) => Effort { pool: Some(pool.taken()), ..old(self)@ },
                _ => old(self)@,
            }),
    {
        match self.worker.take() {
            Some(worker) => {
                let mut worker = worker;
                let task = worker.next_job();
                self.worker = Some(worker);
                task
            },
            None => None,
        }
    }

    /// Takes a thread back from the job it ran, and says whether the result is to
    /// be looked at. Without a pool no result is.
    pub fn finish(&mut self, id: JobId) -> (wanted: bool)
        requires
            old(self).wf(),
            old(self)@.pool matches Some(pool) ==> pool.idle < pool.threads,
        ensures
            final(self).wf(),
            wanted == (old(self)@.pool matches Some(pool) && pool.wants(id)),
            final(self)@ == (match old(self)@.pool {
                Some(pool) => Effort { pool: Some(pool.finished(id)), ..old(self)@ },
                None => old(self)@,
            }),
    {
        match self.worker.take() {
            Some(worker) => {
                let mut worker = worker;
                let wanted = worker.finish(id);
                self.worker = Some(worker);
                wanted
            },
            None => false,
        }
    }

    /// Stops waiting for a job. Forgetting it protects the state; telling the
    /// pool saves the work.
    pub fn abandon(&mut self, id: JobId)
        requires
            old(self).wf(),
        ensures
            final(self).wf(),
            final(self)@ == old(self)@.without(id),
    {
        if self.in_flight.forget(id) {
            match self.worker.take() {
                Some(worker) => {
                    let mut worker = worker;
                    worker.cancel(id);
                    self.worker = Some(worker);
                },
                None => {},
            }
        } else {
            assert(self.in_flight@ =~= old(self).in_flight@);
        }
    }

    /// Stops waiting for every job of `kind`.
    pub fn abandon_all(&mut self, kind: Kind)
        requires
            old(self).wf(),
        ensures
            final(self).wf(),
            old(self)@.without_kind(kind, final(self)@),
    {
        let ids = self.in_flight.ids(kind);
        let mut i: usize = 0;
        assert(ids@.take(0) =~= Seq::<JobId>::empty());
        while i < ids.len()
            invariant
                self.wf(),
                i <= ids@.len(),
                self@ == old(self)@.without_each(ids@.take(i as int)),
            decreases ids.len() - i,
        {
            assert(ids@.take(i + 1).drop_last() =~= ids@.take(i as int));
            assert(ids@.take(i + 1).last() == ids@[i as int]);
            self.abandon(ids[i]);
            i = i + 1;
        }
        assert(ids@.take(ids@.len() as int) =~= ids@);
        assert(is_listing(ids@, of_kind(old(self)@.out, kind)));
    }
}

// ---------------------------------------------------------------------------
// Laws
// ---------------------------------------------------------------------------

/// A job that was given up is out no longer, whatever is given up after it.
pub proof fn law_an_abandoned_job_is_not_wanted(effort: Effort, ids: Seq<JobId>, i: int)
    requires
        0 <= i < ids.len(),
    ensures
        !effort.without_each(ids).out.contains_key(ids[i]),
    decreases ids.len(),
{
    if i < ids.len() - 1 {
        law_an_abandoned_job_is_not_wanted(effort, ids.drop_last(), i);
        assert(ids.drop_last()[i] == ids[i]);
    }
}

/// Giving jobs up leaves every other job as it was.
pub proof fn law_other_jobs_stay_wanted(effort: Effort, ids: Seq<JobId>, other: JobId)
    requires
        !ids.contains(other),
    ensures
        effort.without_each(ids).out.contains_key(other) == effort.out.contains_key(other),
        effort.out.contains_key(other) ==> effort.without_each(ids).out[other] == effort.out[other],
    decreases ids.len(),
{
    if ids.len() > 0 {
        let rest = ids.drop_last();
        assert(!rest.contains(other)) by {
            if rest.contains(other) {
                let k = choose|k: int| 0 <= k < rest.len() && rest[k] == other;
                assert(ids[k] == other);
            }
        }
        assert(ids[ids.len() - 1] == ids.last());
        law_other_jobs_stay_wanted(effort, rest, other);
    }
}

/// After a round of one kind is given up none of that kind is out, and the jobs
/// of every other kind are the same as before.
pub proof fn law_a_round_is_given_up_whole(effort: Effort, kind: Kind, next: Effort)
    requires
        effort.without_kind(kind, next),
    ensures
        of_kind(next.out, kind) == Set::<JobId>::empty(),
        forall|id: JobId|
            effort.out.contains_key(id) && effort.out[id].kind() != kind
                ==> #[trigger] next.out.contains_key(id) && next.out[id] == effort.out[id],
        forall|id: JobId| #[trigger]
            next.out.contains_key(id) ==> effort.out.contains_key(id) && next.out[id]
                == effort.out[id],
{
    let ids = choose|ids: Seq<JobId>| #[trigger]
        is_listing(ids, of_kind(effort.out, kind)) && next == effort.without_each(ids);
    assert forall|id: JobId| true implies (of_kind(effort.out, kind).contains(id) ==> !#[trigger] next.out.contains_key(id))
        && (!of_kind(effort.out, kind).contains(id) ==> next.out.contains_key(id)
        == effort.out.contains_key(id) && (effort.out.contains_key(id) ==> next.out[id]
        == effort.out[id])) by {
        if of_kind(effort.out, kind).contains(id) {
            assert(ids.to_set().contains(id));
            let k = choose|k: int| 0 <= k < ids.len() && ids[k] == id;
            law_an_abandoned_job_is_not_wanted(effort, ids, k);
        } else {
            assert(!ids.contains(id)) by {
                if ids.contains(id) {
                    assert(ids.to_set().contains(id));
                }
            }
            law_other_jobs_stay_wanted(effort, ids, id);
        }
    }
    assert forall|id: JobId| !of_kind(next.out, kind).contains(id) by {
        if next.out.contains_key(id) {
            assert(!of_kind(effort.out, kind).contains(id));
        }
    }
    assert(of_kind(next.out, kind) =~= Set::<JobId>::empty());
}

/// Whether every job is of one kind.
pub open spec fn all_of(jobs: Seq<(Job, TrackedJob)>, kind: Kind) -> bool {
    forall|i: int| 0 <= i < jobs.len() ==> (#[trigger] jobs[i]).1.kind() == kind
}

/// Every submission is counted once: after `n` jobs of one kind were handed over,
/// `n` more of that kind are out, and no fewer of any other.
pub proof fn law_each_submission_counts(
    work: Background,
    jobs: Seq<(Job, TrackedJob)>,
    kind: Kind,
)
    requires
        work.wf(),
        work@.has_ids(jobs.len()),
        all_of(jobs, kind),
    ensures
        work@.with_jobs(jobs).count(kind) == work@.count(kind) + jobs.len(),
        forall|other: Kind|
            other != kind ==> #[trigger] of_kind(work@.with_jobs(jobs).out, other) == of_kind(
                work@.out,
                other,
            ),
{
    work.in_flight.lemma_finite();
    lemma_each_submission_counts(work@, jobs, kind);
}

/// Several submissions of one kind, counted.
pub proof fn lemma_each_submission_counts(
    effort: Effort,
    jobs: Seq<(Job, TrackedJob)>,
    kind: Kind,
)
    requires
        effort.is_ordered(),
        effort.has_ids(jobs.len()),
        effort.out.dom().finite(),
        all_of(jobs, kind),
    ensures
        effort.with_jobs(jobs).count(kind) == effort.count(kind) + jobs.len(),
        forall|other: Kind|
            other != kind ==> #[trigger] of_kind(effort.with_jobs(jobs).out, other) == of_kind(
                effort.out,
                other,
            ),
        effort.with_jobs(jobs).is_ordered(),
        effort.with_jobs(jobs).has_ids(0),
        effort.with_jobs(jobs).out.dom().finite(),
        effort.with_jobs(jobs).pool->0.next_id == effort.pool->0.next_id + jobs.len(),
    decreases jobs.len(),
{
    if jobs.len() > 0 {
        let rest = jobs.drop_last();
        assert(all_of(rest, kind)) by {
            assert forall|i: int| 0 <= i < rest.len() implies (#[trigger] rest[i]).1.kind()
                == kind by {
                assert(rest[i] == jobs[i]);
            }
        }
        lemma_each_submission_counts(effort, rest, kind);
        let before = effort.with_jobs(rest);
        let id = before.pool->0.next();
        let what = jobs.last().1;
        let after = effort.with_jobs(jobs);
        assert(jobs[jobs.len() - 1] == jobs.last());
        assert(after.out == before.out.insert(id, what));
        assert(!before.out.contains_key(id));
        assert(of_kind(after.out, kind) =~= of_kind(before.out, kind).insert(id));
        assert(of_kind(before.out, kind).subset_of(before.out.dom()));
        vstd::set_lib::lemma_set_subset_finite(before.out.dom(), of_kind(before.out, kind));
        assert forall|other: Kind| other != kind implies #[trigger] of_kind(after.out, other)
            == of_kind(effort.out, other) by {
            assert(of_kind(after.out, other) =~= of_kind(before.out, other));
        }
        assert(after.out.dom() =~= before.out.dom().insert(id));
    }
}

/// Giving jobs up hands out no id.
pub proof fn lemma_giving_up_hands_out_nothing(effort: Effort, ids: Seq<JobId>)
    requires
        effort.is_ordered(),
        effort.out.dom().finite(),
    ensures
        effort.without_each(ids).is_ordered(),
        effort.without_each(ids).out.dom().finite(),
        effort.without_each(ids).pool is Some == effort.pool is Some,
        effort.pool matches Some(pool) ==> {
            &&& effort.without_each(ids).pool->0.next_id == pool.next_id
            &&& effort.without_each(ids).pool->0.started_over == pool.started_over
        },
    decreases ids.len(),
{
    if ids.len() > 0 {
        lemma_giving_up_hands_out_nothing(effort, ids.drop_last());
        let before = effort.without_each(ids.drop_last());
        let after = effort.without_each(ids);
        if before.out.contains_key(ids.last()) {
            assert(after.out.dom() =~= before.out.dom().remove(ids.last()));
        }
    }
}

/// The pool is told of what is given up: a job that is still queued is taken out of
/// the queue, and the result of one that runs is thrown away. A job nobody waits for
/// is left alone.
pub proof fn law_the_pool_is_told_of_what_is_given_up(effort: Effort, id: JobId)
    requires
        effort.pool is Some,
        effort.pool->0.wanted.contains(id),
        forall|a: int, b: int|
            0 <= a < b < effort.pool->0.queue.len() ==> (#[trigger] effort.pool->0.queue[a]).id != (
            #[trigger] effort.pool->0.queue[b]).id,
    ensures
        ({
            let after = effort.without(id);
            &&& after.pool is Some
            &&& !effort.out.contains_key(id) ==> after == effort
            &&& effort.out.contains_key(id) ==> {
                &&& !after.out.contains_key(id)
                &&& !after.pool->0.wanted.contains(id)
                &&& forall|k: int|
                    0 <= k < after.pool->0.queue.len() ==> (#[trigger] after.pool->0.queue[k]).id
                        != id
                &&& (forall|k: int|
                    0 <= k < effort.pool->0.queue.len() ==> (
                    #[trigger] effort.pool->0.queue[k]).id != id)
                    ==> after.pool->0.dropped.contains(id)
            }
        }),
{
    let pool = effort.pool->0;
    if effort.out.contains_key(id) {
        law_a_cancelled_job_is_never_heard_of(pool, id);
        lemma_queued_at(pool.without(id).queue, id);
        lemma_queued_at(pool.queue, id);
    }
}

/// Jobs that are given up together are given up one by one.
pub proof fn law_jobs_are_given_up_one_by_one(effort: Effort, ids: Seq<JobId>, last: JobId)
    ensures
        effort.without_each(ids.push(last)) == effort.without_each(ids).without(last),
        effort.without_each(Seq::<JobId>::empty()) == effort,
{
    assert(ids.push(last).drop_last() =~= ids);
}

} // verus!
