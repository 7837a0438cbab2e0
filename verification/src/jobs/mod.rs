//! Slow work, moved off the thread that draws.
//!
//! A [`Job`] says what to do and owns everything it needs. The [`Worker`] is the
//! queue of a bounded pool: it hands jobs to free threads, and says of each
//! result whether anyone still wants it.

use vstd::prelude::*;

use crate::components::repositories::Listing;
use crate::github::{PrInfo, PrUrl};
use crate::hooks::{HookPlan, HookReport};
use crate::text::{concat, decimal, decimal_of};
use crate::vcs::Space;

pub mod background;
pub mod in_flight;

verus! {

/// How many jobs may be in flight at once.
pub const WORKER_THREADS: usize = 4;

/// Identifies one submission, so its result can be recognised, or ignored.
#[derive(Debug, Clone, Copy, PartialEq, Eq, PartialOrd, Ord, Hash, Structural)]
pub struct JobId {
    pub number: u64,
}

/// What a job is, without its payload.
#[derive(Debug, Clone, Copy, PartialEq, Eq, Structural)]
pub enum JobKind {
    ScanRepositories,
    FetchRemotes,
    FetchPullRequest,
    CloneRepository,
    SpaceStatus,
    RunHooks,
}

impl JobKind {
    /// The job in words.
    #[verifier::allow_in_spec]
    pub fn name(self) -> &'static str
        returns
            (match self {
                JobKind::ScanRepositories => "repository scan",
                JobKind::FetchRemotes => "fetch",
                JobKind::FetchPullRequest => "pull request lookup",
                JobKind::CloneRepository => "clone",
                JobKind::SpaceStatus => "status",
                JobKind::RunHooks => "hooks",
            }),
    {
        match self {
            JobKind::ScanRepositories => "repository scan",
            JobKind::FetchRemotes => "fetch",
            JobKind::FetchPullRequest => "pull request lookup",
            JobKind::CloneRepository => "clone",
            JobKind::SpaceStatus => "status",
            JobKind::RunHooks => "hooks",
        }
    }
}

/// A unit of slow work, complete with everything it needs to run.
#[derive(Debug, PartialEq, Eq)]
pub enum Job {
    /// Walk the repos dirs, open every repository found and list its spaces.
    ScanRepositories { roots: Vec<String>, excluded: Vec<String> },
    /// Refresh one repository's view of its remotes.
    FetchRemotes { path: String },
    /// Look a pull request up.
    FetchPullRequest { url: PrUrl },
    /// Clone a repository into a repos dir.
    CloneRepository { owner: String, repo: String, repos_dir: String },
    /// Recompute one repository's spaces, their status included.
    SpaceStatus { path: String },
    /// Set a freshly created space up.
    RunHooks { plan: HookPlan },
}

impl Job {
    #[verifier::allow_in_spec]
    pub fn kind(&self) -> JobKind
        returns
            (match self {
                Job::ScanRepositories { .. } => JobKind::ScanRepositories,
                Job::FetchRemotes { .. } => JobKind::FetchRemotes,
                Job::FetchPullRequest { .. } => JobKind::FetchPullRequest,
                Job::CloneRepository { .. } => JobKind::CloneRepository,
                Job::SpaceStatus { .. } => JobKind::SpaceStatus,
                Job::RunHooks { .. } => JobKind::RunHooks,
            }),
    {
        match self {
            Job::ScanRepositories { .. } => JobKind::ScanRepositories,
            Job::FetchRemotes { .. } => JobKind::FetchRemotes,
            Job::FetchPullRequest { .. } => JobKind::FetchPullRequest,
            Job::CloneRepository { .. } => JobKind::CloneRepository,
            Job::SpaceStatus { .. } => JobKind::SpaceStatus,
            Job::RunHooks { .. } => JobKind::RunHooks,
        }
    }
}

/// What a job produced.
#[derive(Debug, PartialEq, Eq)]
pub enum Completion {
    /// Every repository found, once for each backend that drives it.
    Repositories(Vec<Listing>),
    /// This repository's remotes were refreshed as far as they could be.
    Fetched { path: String },
    PullRequest(PrInfo),
    /// Where the clone landed, and the repository as its backends opened it, or
    /// why they could not.
    Cloned { path: String, opened: Result<Vec<crate::vcs::Repo>, String> },
    /// One repository's spaces, freshly read.
    Spaces { path: String, spaces: Vec<Space> },
    /// What a space's hooks came to.
    HooksRan(HookReport),
}

/// A result in short, for a message about one that was not expected.
pub open spec fn completion_text(completion: Completion) -> Seq<char> {
    match completion {
        Completion::Repositories(found) => "Repositories("@ + decimal_of(found@.len()) + ")"@,
        Completion::Fetched { path } => "Fetched("@ + path@ + ")"@,
        Completion::PullRequest(_) => "PullRequest"@,
        Completion::Cloned { path, .. } => "Cloned("@ + path@ + ")"@,
        Completion::Spaces { spaces, .. } => "Spaces("@ + decimal_of(spaces@.len()) + ")"@,
        Completion::HooksRan(_) => "HooksRan"@,
    }
}

fn in_brackets(name: &str, inner: &str) -> (text: String)
    ensures
        text@ == name@ + inner@ + ")"@,
{
    let mut text = concat(name, inner);
    text.append(")");
    text
}

impl Completion {
    /// The result in short, for a message about one that was not expected.
    pub fn text(&self) -> (text: String)
        ensures
            text@ == completion_text(*self),
    {
        match self {
            Completion::Repositories(found) => in_brackets(
                "Repositories(",
                decimal(found.len() as u64).as_str(),
            ),
            Completion::Fetched { path } => in_brackets("Fetched(", path.as_str()),
            Completion::PullRequest(_) => "PullRequest".to_owned(),
            Completion::Cloned { path, .. } => in_brackets("Cloned(", path.as_str()),
            Completion::Spaces { spaces, .. } => in_brackets(
                "Spaces(",
                decimal(spaces.len() as u64).as_str(),
            ),
            Completion::HooksRan(_) => "HooksRan".to_owned(),
        }
    }
}

/// A finished job. A failure is a result too, and carries its reason.
#[derive(Debug, PartialEq, Eq)]
pub struct JobResult {
    pub id: JobId,
    pub kind: JobKind,
    pub outcome: Result<Completion, String>,
}

/// The result of a job whose body panicked: an error like any other.
pub fn panicked(id: JobId, kind: JobKind) -> (result: JobResult)
    ensures
        result.id == id,
        result.kind == kind,
        result.outcome matches Err(text) && text@ == "the "@ + kind.name()@ + " job panicked"@,
{
    let mut text = concat("the ", kind.name());
    text.append(" job panicked");
    JobResult { id, kind, outcome: Err(text) }
}

// ---------------------------------------------------------------------------
// The pool
// ---------------------------------------------------------------------------

/// A job waiting for a thread.
#[derive(Debug, PartialEq, Eq)]
pub struct Queued {
    pub id: JobId,
    pub job: Job,
}

/// The queue of a bounded pool of threads.
#[derive(Debug, PartialEq, Eq)]
pub struct Worker {
    /// Jobs no thread has taken yet, the oldest first.
    pub queue: Vec<Queued>,
    /// Submitted and not finished.
    pub pending: Vec<JobId>,
    /// Started, then cancelled: the result is thrown away when it arrives.
    pub cancelled: Vec<JobId>,
    pub stopping: bool,
    /// How many threads the pool has, and how many of them are free.
    pub threads: usize,
    pub idle: usize,
    pub next_id: u64,
    /// Whether the ids have started over, so that one may be handed out again.
    pub started_over: bool,
}

/// Where `id` stands in `ids`, if it is there.
fn position(ids: &Vec<JobId>, id: JobId) -> (at: Option<usize>)
    ensures
        match at {
            Some(i) => i < ids@.len() && ids@[i as int] == id && forall|k: int|
                0 <= k < i ==> ids@[k] != id,
            None => !ids@.contains(id),
        },
{
    let mut i: usize = 0;
    while i < ids.len()
        invariant
            i <= ids@.len(),
            forall|k: int| 0 <= k < i ==> ids@[k] != id,
        decreases ids.len() - i,
    {
        if ids[i] == id {
            return Some(i);
        }
        i = i + 1;
    }
    None
}

/// Removes `id`; says whether it was there.
fn remove(ids: &mut Vec<JobId>, id: JobId) -> (was: bool)
    requires
        old(ids)@.no_duplicates(),
    ensures
        was == old(ids)@.contains(id),
        final(ids)@.no_duplicates(),
        final(ids)@.to_set() == old(ids)@.to_set().remove(id),
        final(ids)@.len() == old(ids)@.len() - (if was {
            1int
        } else {
            0
        }),
{
    let ghost before = ids@;
    match position(ids, id) {
        Some(i) => {
            ids.remove(i);
            proof {
                let after = ids@;
                assert(before.contains(id));
                assert forall|x: JobId| after.to_set().contains(x) == before.to_set().remove(
                    id,
                ).contains(x) by {
                    if after.contains(x) {
                        let k = choose|k: int| 0 <= k < after.len() && after[k] == x;
                        let m = if k < i {
                            k
                        } else {
                            k + 1
                        };
                        assert(before[m] == x);
                    }
                    if before.contains(x) && x != id {
                        let k = choose|k: int| 0 <= k < before.len() && before[k] == x;
                        let m = if k < i {
                            k
                        } else {
                            k - 1
                        };
                        assert(after[m] == x);
                    }
                }
                assert(after.to_set() =~= before.to_set().remove(id));
            }
            true
        },
        None => {
            assert(ids@.to_set() =~= before.to_set().remove(id));
            false
        },
    }
}

/// Adds `id` unless it is there.
fn insert(ids: &mut Vec<JobId>, id: JobId)
    requires
        old(ids)@.no_duplicates(),
    ensures
        final(ids)@.no_duplicates(),
        final(ids)@.to_set() == old(ids)@.to_set().insert(id),
{
    let ghost before = ids@;
    match position(ids, id) {
        Some(_) => {
            assert(before.contains(id));
            assert(ids@.to_set() =~= before.to_set().insert(id));
        },
        None => {
            ids.push(id);
            proof {
                let after = ids@;
                assert forall|x: JobId| after.to_set().contains(x) == before.to_set().insert(
                    id,
                ).contains(x) by {
                    if after.contains(x) && x != id {
                        let k = choose|k: int| 0 <= k < after.len() && after[k] == x;
                        assert(before[k] == x);
                    }
                    if before.contains(x) {
                        let k = choose|k: int| 0 <= k < before.len() && before[k] == x;
                        assert(after[k] == x);
                    }
                    if x == id {
                        assert(after[before.len() as int] == x);
                    }
                }
                assert(after.to_set() =~= before.to_set().insert(id));
            }
        },
    }
}

/// Where `id` is queued: the first entry that has it.
pub open spec fn queued_at(queue: Seq<Queued>, id: JobId) -> Option<int>
    decreases queue.len(),
{
    if queue.len() == 0 {
        None
    } else if queue[0].id == id {
        Some(0)
    } else {
        match queued_at(queue.drop_first(), id) {
            Some(i) => Some(i + 1),
            None => None,
        }
    }
}

pub(crate) proof fn lemma_queued_at(queue: Seq<Queued>, id: JobId)
    ensures
        match queued_at(queue, id) {
            Some(i) => 0 <= i < queue.len() && queue[i].id == id && forall|k: int|
                0 <= k < i ==> (#[trigger] queue[k]).id != id,
            None => forall|k: int| 0 <= k < queue.len() ==> (#[trigger] queue[k]).id != id,
        },
    decreases queue.len(),
{
    if queue.len() > 0 && queue[0].id != id {
        let rest = queue.drop_first();
        lemma_queued_at(rest, id);
        assert forall|k: int| 0 < k < queue.len() implies #[trigger] queue[k] == rest[k - 1] by {
        }
    }
}

/// A pool as the contracts speak of it.
#[verifier::ext_equal]
pub struct Pool {
    /// Jobs no thread has taken yet, the oldest first.
    pub queue: Seq<Queued>,
    /// Submitted and not finished.
    pub wanted: Set<JobId>,
    /// Started, then cancelled.
    pub dropped: Set<JobId>,
    pub stopping: bool,
    pub threads: usize,
    pub idle: usize,
    pub next_id: u64,
    /// Whether the ids have started over.
    pub started_over: bool,
}

impl Pool {
    /// How many jobs are running.
    pub open spec fn running(self) -> int {
        self.threads - self.idle
    }

    /// The pool after these submissions.
    pub open spec fn with_each(self, jobs: Seq<Job>) -> Pool
        decreases jobs.len(),
    {
        if jobs.len() == 0 {
            self
        } else {
            self.with_each(jobs.drop_last()).with_job(jobs.last())
        }
    }

    /// The id the next submission gets.
    pub open spec fn next(self) -> JobId {
        JobId { number: self.next_id }
    }

    /// The pool after a submission. One that is stopping hands out an id and
    /// runs nothing.
    pub open spec fn with_job(self, job: Job) -> Pool {
        let counted = Pool {
            next_id: if self.next_id == u64::MAX {
                0
            } else {
                (self.next_id + 1) as u64
            },
            started_over: self.started_over || self.next_id == u64::MAX,
            ..self
        };
        if self.stopping {
            counted
        } else {
            Pool {
                queue: self.queue.push(Queued { id: self.next(), job }),
                wanted: self.wanted.insert(self.next()),
                ..counted
            }
        }
    }

    /// The job a free thread takes next: the oldest, unless the pool is stopping.
    pub open spec fn first(self) -> Option<Queued> {
        if self.stopping || self.idle == 0 || self.queue.len() == 0 {
            None
        } else {
            Some(self.queue[0])
        }
    }

    /// The pool after a thread took a job.
    pub open spec fn taken(self) -> Pool {
        Pool { queue: self.queue.drop_first(), idle: (self.idle - 1) as usize, ..self }
    }

    /// Whether the result of a job is wanted: not if it was cancelled, nor once
    /// the pool is stopping.
    pub open spec fn wants(self, id: JobId) -> bool {
        !self.dropped.contains(id) && !self.stopping
    }

    /// The pool after a thread came back from a job.
    pub open spec fn finished(self, id: JobId) -> Pool {
        Pool {
            wanted: self.wanted.remove(id),
            dropped: self.dropped.remove(id),
            idle: (self.idle + 1) as usize,
            ..self
        }
    }

    /// The pool after a cancellation: the job leaves the queue if it has not
    /// started, and its result is thrown away if it has. A job that is not
    /// pending is left alone.
    pub open spec fn without(self, id: JobId) -> Pool {
        if !self.wanted.contains(id) {
            self
        } else {
            match queued_at(self.queue, id) {
                Some(i) => Pool {
                    queue: self.queue.remove(i),
                    wanted: self.wanted.remove(id),
                    ..self
                },
                None => Pool {
                    wanted: self.wanted.remove(id),
                    dropped: self.dropped.insert(id),
                    ..self
                },
            }
        }
    }
}

impl View for Worker {
    type V = Pool;

    open spec fn view(&self) -> Pool {
        Pool {
            queue: self.queue@,
            wanted: self.pending@.to_set(),
            dropped: self.cancelled@.to_set(),
            stopping: self.stopping,
            threads: self.threads,
            idle: self.idle,
            next_id: self.next_id,
            started_over: self.started_over,
        }
    }
}

impl Worker {
    pub open spec fn wf(self) -> bool {
        &&& self.pending@.no_duplicates()
        &&& self.cancelled@.no_duplicates()
        &&& self.idle <= self.threads
    }

    /// The jobs submitted and not finished.
    pub open spec fn wanted(self) -> Set<JobId> {
        self.pending@.to_set()
    }

    /// The jobs whose result is to be thrown away.
    pub open spec fn dropped(self) -> Set<JobId> {
        self.cancelled@.to_set()
    }

    /// A pool of [`WORKER_THREADS`] threads.
    pub fn new() -> (worker: Worker)
        ensures
            worker.is_fresh(WORKER_THREADS),
    {
        Self::with_threads(WORKER_THREADS)
    }

    /// A pool nothing was handed to yet.
    pub open spec fn is_fresh(self, threads: usize) -> bool {
        &&& self.wf()
        &&& self.queue@.len() == 0
        &&& self.pending@.len() == 0
        &&& self.cancelled@.len() == 0
        &&& !self.stopping
        &&& self.threads == threads
        &&& self.idle == threads
        &&& self.next_id == 0
        &&& !self.started_over
    }

    pub fn with_threads(threads: usize) -> (worker: Worker)
        ensures
            worker.is_fresh(threads),
    {
        Worker {
            queue: Vec::new(),
            pending: Vec::new(),
            cancelled: Vec::new(),
            stopping: false,
            threads,
            idle: threads,
            next_id: 0,
            started_over: false,
        }
    }

    /// Queues `job` and returns the id its result will carry. A pool that is
    /// stopping hands out an id and runs nothing.
    pub fn submit(&mut self, job: Job) -> (id: JobId)
        requires
            old(self).wf(),
        ensures
            final(self).wf(),
            id == old(self)@.next(),
            final(self)@ == old(self)@.with_job(job),
    {
        let id = JobId { number: self.next_id };
        if self.next_id == u64::MAX {
            self.next_id = 0;
            self.started_over = true;
        } else {
            self.next_id = self.next_id + 1;
        }
        if self.stopping {
            return id;
        }
        insert(&mut self.pending, id);
        self.queue.push(Queued { id, job });
        id
    }

    /// Gives up on a job: it leaves the queue if it has not started, and its
    /// result is thrown away if it has. A job that is not pending is left alone.
    pub fn cancel(&mut self, id: JobId)
        requires
            old(self).wf(),
        ensures
            final(self).wf(),
            final(self)@ == old(self)@.without(id),
    {
        if !remove(&mut self.pending, id) {
            assert(!old(self).wanted().contains(id));
            return;
        }
        assert(old(self).wanted().contains(id));
        proof {
            lemma_queued_at(self.queue@, id);
        }
        let mut i: usize = 0;
        while i < self.queue.len()
            invariant
                i <= self.queue@.len(),
                self.queue@ == old(self).queue@,
                self.wf(),
                old(self).wanted().contains(id),
                self.wanted() == old(self).wanted().remove(id),
                self.dropped() == old(self).dropped(),
                self.stopping == old(self).stopping,
                self.threads == old(self).threads,
                self.idle == old(self).idle,
                self.next_id == old(self).next_id,
                self.started_over == old(self).started_over,
                forall|k: int| 0 <= k < i ==> (#[trigger] self.queue@[k]).id != id,
            decreases self.queue.len() - i,
        {
            if self.queue[i].id == id {
                proof {
                    lemma_queued_at(self.queue@, id);
                }
                self.queue.remove(i);
                return;
            }
            i = i + 1;
        }
        proof {
            lemma_queued_at(self.queue@, id);
        }
        insert(&mut self.cancelled, id);
    }

    /// How many jobs are queued or running.
    pub fn pending(&self) -> (n: usize)
        requires
            self.wf(),
        ensures
            n == self.pending@.len(),
            n == self.wanted().len(),
    {
        proof {
            self.pending@.unique_seq_to_set();
        }
        self.pending.len()
    }

    /// Hands the oldest job to a free thread, if there are both and the pool is
    /// not stopping.
    pub fn next_job(&mut self) -> (task: Option<Queued>)
        requires
            old(self).wf(),
        ensures
            final(self).wf(),
            task == old(self)@.first(),
            final(self)@ == (if task is Some {
                old(self)@.taken()
            } else {
                old(self)@
            }),
    {
        if self.stopping || self.idle == 0 || self.queue.len() == 0 {
            return None;
        }
        self.idle = self.idle - 1;
        let ghost before = self.queue@;
        let queued = self.queue.remove(0);
        assert(self.queue@ =~= before.drop_first());
        Some(queued)
    }

    /// Takes a thread back from the job it ran, and says whether the result is
    /// still wanted: not if the job was cancelled, nor once the pool is stopping.
    pub fn finish(&mut self, id: JobId) -> (wanted: bool)
        requires
            old(self).wf(),
            old(self).idle < old(self).threads,
        ensures
            final(self).wf(),
            wanted == old(self)@.wants(id),
            final(self)@ == old(self)@.finished(id),
    {
        self.idle = self.idle + 1;
        remove(&mut self.pending, id);
        let cancelled = remove(&mut self.cancelled, id);
        assert(old(self).dropped().contains(id) == cancelled);
        !cancelled && !self.stopping
    }

    /// Stops the pool: what has not started never will.
    pub fn stop(&mut self)
        requires
            old(self).wf(),
        ensures
            final(self).wf(),
            final(self)@ == (Pool {
                queue: Seq::empty(),
                wanted: Set::empty(),
                stopping: true,
                ..old(self)@
            }),
    {
        self.stopping = true;
        self.queue.clear();
        self.pending.clear();
        assert(self.pending@.to_set() =~= Set::<JobId>::empty());
    }
}

// ---------------------------------------------------------------------------
// Laws
// ---------------------------------------------------------------------------

/// A pool never runs more jobs than it has threads, however many are queued: a
/// job is taken by a thread that is free.
pub proof fn law_the_pool_is_bounded(pool: Pool)
    requires
        pool.idle <= pool.threads,
    ensures
        0 <= pool.running() <= pool.threads,
        pool.first() is Some ==> {
            &&& pool.running() < pool.threads
            &&& pool.taken().running() == pool.running() + 1
            &&& pool.taken().idle <= pool.threads
        },
{
}

/// The number a counter shows `n` steps on.
pub open spec fn counted(start: u64, n: nat) -> int {
    (start + n) % (u64::MAX + 1)
}

proof fn lemma_counted(start: u64, n: nat)
    ensures
        counted(start, n + 1) == (if counted(start, n) == u64::MAX {
            0
        } else {
            counted(start, n) + 1
        }),
{
    let m = u64::MAX + 1;
    vstd::arithmetic::div_mod::lemma_add_mod_noop(start + n, 1, m);
    vstd::arithmetic::div_mod::lemma_mod_bound(start + n, m);
    let r = counted(start, n);
    if r == u64::MAX {
        vstd::arithmetic::div_mod::lemma_mod_self_0(m);
    } else {
        vstd::arithmetic::div_mod::lemma_small_mod((r + 1) as nat, m as nat);
    }
    vstd::arithmetic::div_mod::lemma_small_mod(1, m as nat);
}

/// Each submission hands out the next id, and nothing else a pool does touches
/// the count.
pub proof fn law_ids_count_up(pool: Pool, jobs: Seq<Job>, id: JobId)
    ensures
        pool.with_each(jobs).next().number == counted(pool.next_id, jobs.len()),
        pool.taken().next() == pool.next(),
        pool.finished(id).next() == pool.next(),
        pool.without(id).next() == pool.next(),
    decreases jobs.len(),
{
    if jobs.len() == 0 {
        vstd::arithmetic::div_mod::lemma_small_mod(
            pool.next_id as nat,
            (u64::MAX + 1) as nat,
        );
    } else {
        law_ids_count_up(pool, jobs.drop_last(), id);
        lemma_counted(pool.next_id, jobs.drop_last().len());
    }
}

/// Ids are not reused: of any two submissions fewer than 2^64 apart, the ids
/// differ.
pub proof fn law_ids_are_not_reused(pool: Pool, jobs: Seq<Job>, i: int, j: int)
    requires
        0 <= i < j <= jobs.len(),
        j - i <= u64::MAX,
    ensures
        pool.with_each(jobs.take(i)).next() != pool.with_each(jobs.take(j)).next(),
{
    let start = pool.next_id;
    law_ids_count_up(pool, jobs.take(i), pool.next());
    law_ids_count_up(pool, jobs.take(j), pool.next());
    let m = u64::MAX + 1;
    vstd::arithmetic::div_mod::lemma_fundamental_div_mod(start + i, m);
    vstd::arithmetic::div_mod::lemma_fundamental_div_mod(start + j, m);
    let q = (start + i) / m;
    let r = (start + j) / m;
    if (start + i) % m == (start + j) % m {
        assert(m * r - m * q == j - i);
        assert(m * (r - q) == j - i) by (nonlinear_arith)
            requires
                m * r - m * q == j - i,
        ;
        assert(r - q >= 1 || r - q <= 0);
        if r - q >= 1 {
            assert(m * (r - q) >= m) by (nonlinear_arith)
                requires
                    r - q >= 1,
                    m > 0,
            ;
        } else {
            assert(m * (r - q) <= 0) by (nonlinear_arith)
                requires
                    r - q <= 0,
                    m > 0,
            ;
        }
    }
}

/// A job that is cancelled is never heard of: while it is queued it leaves the
/// queue, so no thread can take it, and once it runs its result is thrown away.
pub proof fn law_a_cancelled_job_is_never_heard_of(pool: Pool, id: JobId)
    requires
        pool.wanted.contains(id),
        forall|a: int, b: int|
            0 <= a < b < pool.queue.len() ==> (#[trigger] pool.queue[a]).id != (
            #[trigger] pool.queue[b]).id,
    ensures
        queued_at(pool.without(id).queue, id) is None,
        queued_at(pool.queue, id) is None ==> !pool.without(id).wants(id),
{
    let queue = pool.queue;
    lemma_queued_at(queue, id);
    if let Some(i) = queued_at(queue, id) {
        let rest = queue.remove(i);
        lemma_queued_at(rest, id);
        if let Some(k) = queued_at(rest, id) {
            let m = if k < i {
                k
            } else {
                k + 1
            };
            assert(rest[k] == queue[m]);
            if m < i {
                assert(queue[m].id != queue[i].id);
            } else {
                assert(queue[i].id != queue[m].id);
            }
        }
    }
}

/// A job that is handed over waits behind every job that was handed over before, and
/// is wanted from then on; a pool that is stopping takes none in.
pub proof fn law_a_job_waits_behind_the_others(pool: Pool, job: Job)
    ensures
        ({
            let next = pool.with_job(job);
            &&& !pool.stopping ==> {
                &&& next.queue.len() == pool.queue.len() + 1
                &&& next.queue.drop_last() == pool.queue
                &&& next.queue.last().id.number == pool.next_id
                &&& next.queue.last().job == job
                &&& forall|id: JobId|
                    #[trigger] next.wanted.contains(id) <==> pool.wanted.contains(id) || id.number
                        == pool.next_id
            }
            &&& pool.stopping ==> next.queue == pool.queue && next.wanted == pool.wanted
            &&& next.dropped == pool.dropped
            &&& next.idle == pool.idle && next.threads == pool.threads
            &&& next.stopping == pool.stopping
        }),
{
    assert(!pool.stopping ==> pool.with_job(job).queue.drop_last() =~= pool.queue);
    assert forall|id: JobId| !pool.stopping implies (#[trigger] pool.with_job(job).wanted.contains(
        id,
    ) <==> pool.wanted.contains(id) || id.number == pool.next_id) by {
        assert(id.number == pool.next_id ==> id == pool.next());
    }
}

/// A free thread takes the job that has waited longest, and takes it out of the
/// queue; nothing is taken while no thread is free or the pool is stopping.
pub proof fn law_the_oldest_job_goes_first(pool: Pool)
    ensures
        pool.first() is Some <==> !pool.stopping && pool.idle > 0 && pool.queue.len() > 0,
        pool.first() matches Some(queued) ==> {
            &&& queued == pool.queue[0]
            &&& pool.taken().queue == pool.queue.skip(1)
            &&& pool.taken().idle == pool.idle - 1
            &&& pool.taken().wanted == pool.wanted
            &&& pool.taken().dropped == pool.dropped
        },
{
    assert(pool.queue.len() > 0 ==> pool.queue.drop_first() =~= pool.queue.skip(1));
}

/// A thread that comes back is free again, and its job is no longer pending; no
/// other job notices.
pub proof fn law_a_finished_job_frees_its_thread(pool: Pool, id: JobId, other: JobId)
    requires
        pool.idle < usize::MAX,
    ensures
        ({
            let next = pool.finished(id);
            &&& next.idle == pool.idle + 1
            &&& !next.wanted.contains(id)
            &&& !next.dropped.contains(id)
            &&& other != id ==> (next.wanted.contains(other) <==> pool.wanted.contains(other)) && (
            next.wants(other) <==> pool.wants(other))
            &&& next.queue == pool.queue
        }),
{
}

/// The result of a job is handed on unless the job was cancelled or the pool is
/// stopping.
pub proof fn law_a_result_is_wanted_unless_given_up(pool: Pool, id: JobId)
    ensures
        pool.wants(id) <==> !pool.dropped.contains(id) && !pool.stopping,
{
}

/// A cancellation touches one job: every other keeps its place and its result, and
/// a job that is not pending is not touched at all.
pub proof fn law_a_cancellation_touches_one_job(pool: Pool, id: JobId, other: JobId)
    requires
        other != id,
    ensures
        ({
            let next = pool.without(id);
            &&& !pool.wanted.contains(id) ==> next == pool
            &&& !next.wanted.contains(id)
            &&& next.wanted.contains(other) <==> pool.wanted.contains(other)
            &&& next.wants(other) <==> pool.wants(other)
            &&& forall|k: int|
                0 <= k < pool.queue.len() && (#[trigger] pool.queue[k]).id == other
                    ==> next.queue.contains(pool.queue[k])
            &&& next.idle == pool.idle
        }),
{
    let next = pool.without(id);
    if pool.wanted.contains(id) {
        lemma_queued_at(pool.queue, id);
        if let Some(i) = queued_at(pool.queue, id) {
            assert forall|k: int| 0 <= k < pool.queue.len() && (#[trigger] pool.queue[k]).id
                == other implies next.queue.contains(pool.queue[k]) by {
                let m = if k < i {
                    k
                } else {
                    k - 1
                };
                assert(next.queue[m] == pool.queue[k]);
            }
        } else {
            assert forall|k: int| 0 <= k < pool.queue.len() implies next.queue.contains(
                #[trigger] pool.queue[k],
            ) by {
                assert(next.queue[k] == pool.queue[k]);
            }
        }
    } else {
        assert forall|k: int| 0 <= k < pool.queue.len() implies next.queue.contains(
            #[trigger] pool.queue[k],
        ) by {
            assert(next.queue[k] == pool.queue[k]);
        }
    }
}

/// A pool starts out with four threads, all of them free, and with nothing to do.
pub proof fn law_a_new_pool_is_idle(worker: Worker)
    requires
        worker.is_fresh(WORKER_THREADS),
    ensures
        worker@.threads == 4,
        worker@.idle == 4,
        worker@.running() == 0,
        worker@.queue.len() == 0,
        forall|id: JobId| !(#[trigger] worker@.wanted.contains(id)),
        !worker@.stopping,
{
}

/// A result is named by what it is a result of, and by where or how many.
pub proof fn law_a_result_is_named_in_short(completion: Completion)
    ensures
        completion matches Completion::Fetched { path } ==> completion_text(completion)
            == "Fetched("@ + path@ + ")"@,
        completion matches Completion::Repositories(found) ==> completion_text(completion)
            == "Repositories("@ + decimal_of(found@.len()) + ")"@,
        completion matches Completion::Spaces { spaces, .. } ==> completion_text(completion)
            == "Spaces("@ + decimal_of(spaces@.len()) + ")"@,
        completion matches Completion::Cloned { path, .. } ==> completion_text(completion)
            == "Cloned("@ + path@ + ")"@,
        completion is PullRequest ==> completion_text(completion) == "PullRequest"@,
        completion is HooksRan ==> completion_text(completion) == "HooksRan"@,
{
}

/// A job is told in words by what it does.
pub proof fn law_a_job_is_told_by_what_it_does(job: Job)
    ensures
        job is ScanRepositories ==> job.kind().name()@ == "repository scan"@,
        job is FetchRemotes ==> job.kind().name()@ == "fetch"@,
        job is FetchPullRequest ==> job.kind().name()@ == "pull request lookup"@,
        job is CloneRepository ==> job.kind().name()@ == "clone"@,
        job is SpaceStatus ==> job.kind().name()@ == "status"@,
        job is RunHooks ==> job.kind().name()@ == "hooks"@,
{
}

} // verus!
