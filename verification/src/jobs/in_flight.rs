//! The jobs whose answers still matter, and what each one is for.
//!
//! One map from ids to categories. A result is applied only if [`InFlight::finish`]
//! returns its category; anything else is dropped, so a slow answer can never
//! overwrite a newer one.

use vstd::prelude::*;

use super::JobId;

verus! {

/// What a job in flight is for.
#[derive(Debug, PartialEq, Eq)]
pub enum TrackedJob {
    /// A repos dir being walked.
    Scan,
    /// One repository re-reading its spaces from disk.
    Refresh,
    /// The remotes of the repository at this path being refreshed.
    Fetch(String),
    /// A created space's hooks.
    Hooks,
    /// Still wanted, but counted by nobody.
    Routed,
}

/// A category without its payload.
#[derive(Debug, Clone, Copy, PartialEq, Eq, Structural)]
pub enum Kind {
    Scan,
    Refresh,
    Fetch,
    Hooks,
    Routed,
}

impl TrackedJob {
    #[verifier::allow_in_spec]
    pub fn kind(&self) -> Kind
        returns
            (match self {
                TrackedJob::Scan => Kind::Scan,
                TrackedJob::Refresh => Kind::Refresh,
                TrackedJob::Fetch(_) => Kind::Fetch,
                TrackedJob::Hooks => Kind::Hooks,
                TrackedJob::Routed => Kind::Routed,
            }),
    {
        match self {
            TrackedJob::Scan => Kind::Scan,
            TrackedJob::Refresh => Kind::Refresh,
            TrackedJob::Fetch(_) => Kind::Fetch,
            TrackedJob::Hooks => Kind::Hooks,
            TrackedJob::Routed => Kind::Routed,
        }
    }
}

/// One job and its category.
#[derive(Debug, PartialEq, Eq)]
pub struct Flight {
    pub id: JobId,
    pub what: TrackedJob,
}

/// Every job that has been submitted and whose answer is still wanted.
#[derive(Debug, PartialEq, Eq)]
pub struct InFlight {
    jobs: Vec<Flight>,
}

spec fn distinct(jobs: Seq<Flight>) -> bool {
    forall|i: int, j: int|
        0 <= i < j < jobs.len() ==> (#[trigger] jobs[i]).id != (#[trigger] jobs[j]).id
}

/// The jobs as a map from id to category.
spec fn as_map(jobs: Seq<Flight>) -> Map<JobId, TrackedJob> {
    Map::new(
        |id: JobId| exists|i: int| 0 <= i < jobs.len() && (#[trigger] jobs[i]).id == id,
        |id: JobId|
            jobs[choose|i: int| 0 <= i < jobs.len() && (#[trigger] jobs[i]).id == id].what,
    )
}

proof fn lemma_entry(jobs: Seq<Flight>, i: int)
    requires
        distinct(jobs),
        0 <= i < jobs.len(),
    ensures
        as_map(jobs).contains_key(jobs[i].id),
        as_map(jobs)[jobs[i].id] == jobs[i].what,
{
    let id = jobs[i].id;
    let j = choose|j: int| 0 <= j < jobs.len() && (#[trigger] jobs[j]).id == id;
    assert(0 <= j < jobs.len() && jobs[j].id == id);
    if i < j {
        assert(jobs[i].id != jobs[j].id);
    } else if j < i {
        assert(jobs[j].id != jobs[i].id);
    }
}

proof fn lemma_removed(jobs: Seq<Flight>, i: int)
    requires
        distinct(jobs),
        0 <= i < jobs.len(),
    ensures
        distinct(jobs.remove(i)),
        as_map(jobs.remove(i)) == as_map(jobs).remove(jobs[i].id),
{
    let rest = jobs.remove(i);
    let id = jobs[i].id;
    assert(distinct(rest)) by {
        assert forall|a: int, b: int| 0 <= a < b < rest.len() implies (#[trigger] rest[a]).id != (
        #[trigger] rest[b]).id by {
            let x = if a < i {
                a
            } else {
                a + 1
            };
            let y = if b < i {
                b
            } else {
                b + 1
            };
            assert(rest[a] == jobs[x] && rest[b] == jobs[y]);
        }
    }
    assert forall|k: JobId| as_map(rest).contains_key(k) == as_map(jobs).remove(id).contains_key(k)
        by {
        if as_map(rest).contains_key(k) {
            let a = choose|a: int| 0 <= a < rest.len() && (#[trigger] rest[a]).id == k;
            let x = if a < i {
                a
            } else {
                a + 1
            };
            assert(rest[a] == jobs[x]);
            if x < i {
                assert(jobs[x].id != jobs[i].id);
            } else {
                assert(jobs[i].id != jobs[x].id);
            }
        }
        if as_map(jobs).contains_key(k) && k != id {
            let x = choose|x: int| 0 <= x < jobs.len() && (#[trigger] jobs[x]).id == k;
            let a = if x < i {
                x
            } else {
                x - 1
            };
            assert(rest[a] == jobs[x]);
        }
    }
    assert forall|k: JobId| as_map(rest).contains_key(k) implies #[trigger] as_map(rest)[k]
        == as_map(jobs).remove(id)[k] by {
        let a = choose|a: int| 0 <= a < rest.len() && (#[trigger] rest[a]).id == k;
        let x = if a < i {
            a
        } else {
            a + 1
        };
        assert(rest[a] == jobs[x]);
        lemma_entry(rest, a);
        lemma_entry(jobs, x);
    }
    assert(as_map(rest) =~= as_map(jobs).remove(id));
}

impl View for InFlight {
    type V = Map<JobId, TrackedJob>;

    closed spec fn view(&self) -> Map<JobId, TrackedJob> {
        as_map(self.jobs@)
    }
}

/// The jobs of one kind.
pub open spec fn of_kind(jobs: Map<JobId, TrackedJob>, kind: Kind) -> Set<JobId> {
    jobs.dom().filter(|id: JobId| jobs[id].kind() == kind)
}

/// Whether the remotes of the repository at `path` are being fetched.
pub open spec fn fetching(jobs: Map<JobId, TrackedJob>, path: Seq<char>) -> bool {
    exists|id: JobId| #[trigger]
        jobs.contains_key(id) && (jobs[id] matches TrackedJob::Fetch(p) && p@ == path)
}

impl InFlight {
    pub closed spec fn wf(self) -> bool {
        distinct(self.jobs@)
    }

    /// Only finitely many jobs are out.
    pub proof fn lemma_finite(self)
        requires
            self.wf(),
        ensures
            self@.dom().finite(),
    {
        let ids = self.jobs@.map_values(|f: Flight| f.id);
        assert forall|id: JobId| self@.dom().contains(id) implies ids.to_set().contains(id) by {
            let j = choose|j: int|
                0 <= j < self.jobs@.len() && (#[trigger] self.jobs@[j]).id == id;
            assert(ids[j] == id);
        }
        vstd::seq_lib::seq_to_set_is_finite(ids);
        vstd::set_lib::lemma_set_subset_finite(ids.to_set(), self@.dom());
    }

    pub fn new() -> (flight: InFlight)
        ensures
            flight.wf(),
            flight@ == Map::<JobId, TrackedJob>::empty(),
    {
        let flight = InFlight { jobs: Vec::new() };
        assert(flight@ =~= Map::<JobId, TrackedJob>::empty());
        flight
    }

    fn position(&self, id: JobId) -> (at: Option<usize>)
        requires
            self.wf(),
        ensures
            match at {
                Some(i) => i < self.jobs@.len() && self.jobs@[i as int].id == id
                    && self@.contains_key(id) && self@[id] == self.jobs@[i as int].what,
                None => !self@.contains_key(id),
            },
    {
        let mut i: usize = 0;
        while i < self.jobs.len()
            invariant
                self.wf(),
                i <= self.jobs@.len(),
                forall|k: int| 0 <= k < i ==> (#[trigger] self.jobs@[k]).id != id,
            decreases self.jobs.len() - i,
        {
            if self.jobs[i].id == id {
                proof {
                    lemma_entry(self.jobs@, i as int);
                }
                return Some(i);
            }
            i = i + 1;
        }
        None
    }

    /// Starts tracking a submitted job.
    pub fn track(&mut self, id: JobId, what: TrackedJob)
        requires
            old(self).wf(),
        ensures
            final(self).wf(),
            final(self)@ == old(self)@.insert(id, what),
    {
        let ghost start = self@;
        self.finish(id);
        let ghost before = self.jobs@;
        assert(self@ == start.remove(id));
        self.jobs.push(Flight { id, what });
        proof {
            let after = self.jobs@;
            let n = before.len() as int;
            assert forall|k: int| 0 <= k < n implies (#[trigger] before[k]).id != id by {
                lemma_entry(before, k);
            }
            assert(distinct(after)) by {
                assert forall|a: int, b: int| 0 <= a < b < after.len() implies (
                #[trigger] after[a]).id != (#[trigger] after[b]).id by {
                    assert(after[a] == before[a]);
                    if b < n {
                        assert(after[b] == before[b]);
                    }
                }
            }
            lemma_entry(after, n);
            assert forall|k: JobId| as_map(after).contains_key(k) == start.insert(
                id,
                what,
            ).contains_key(k) by {
                if as_map(after).contains_key(k) && k != id {
                    let a = choose|a: int| 0 <= a < after.len() && (#[trigger] after[a]).id == k;
                    assert(before[a] == after[a]);
                    lemma_entry(before, a);
                }
                if start.contains_key(k) && k != id {
                    assert(as_map(before).contains_key(k));
                    let a = choose|a: int| 0 <= a < before.len() && (#[trigger] before[a]).id == k;
                    assert(before[a] == after[a]);
                }
            }
            assert forall|k: JobId| as_map(after).contains_key(k) implies #[trigger] as_map(
                after,
            )[k] == start.insert(id, what)[k] by {
                let a = choose|a: int| 0 <= a < after.len() && (#[trigger] after[a]).id == k;
                lemma_entry(after, a);
                if k != id {
                    assert(before[a] == after[a]);
                    lemma_entry(before, a);
                }
            }
            assert(self@ =~= start.insert(id, what));
        }
    }

    /// Takes a finished job's category, or `None` if nobody is waiting for it.
    pub fn finish(&mut self, id: JobId) -> (what: Option<TrackedJob>)
        requires
            old(self).wf(),
        ensures
            final(self).wf(),
            final(self)@ == old(self)@.remove(id),
            match what {
                Some(job) => old(self)@.contains_key(id) && old(self)@[id] == job,
                None => !old(self)@.contains_key(id),
            },
    {
        match self.position(id) {
            Some(i) => {
                proof {
                    lemma_removed(self.jobs@, i as int);
                }
                let flight = self.jobs.remove(i);
                Some(flight.what)
            },
            None => {
                assert(self@ =~= old(self)@.remove(id));
                None
            },
        }
    }

    /// Stops waiting for a job; says whether it was still wanted.
    pub fn forget(&mut self, id: JobId) -> (was: bool)
        requires
            old(self).wf(),
        ensures
            final(self).wf(),
            final(self)@ == old(self)@.remove(id),
            was == old(self)@.contains_key(id),
    {
        self.finish(id).is_some()
    }

    /// Forgets everything.
    pub fn clear(&mut self)
        ensures
            final(self).wf(),
            final(self)@ == Map::<JobId, TrackedJob>::empty(),
    {
        self.jobs.clear();
        assert(self@ =~= Map::<JobId, TrackedJob>::empty());
    }

    /// The ids of every job of `kind`.
    pub fn ids(&self, kind: Kind) -> (ids: Vec<JobId>)
        requires
            self.wf(),
        ensures
            ids@.no_duplicates(),
            ids@.to_set() == of_kind(self@, kind),
            ids@.len() == of_kind(self@, kind).len(),
    {
        let mut ids: Vec<JobId> = Vec::new();
        let mut i: usize = 0;
        while i < self.jobs.len()
            invariant
                self.wf(),
                i <= self.jobs@.len(),
                ids@.no_duplicates(),
                forall|k: int| 0 <= k < ids@.len() ==> is_before(
                    self.jobs@,
                    i as int,
                    kind,
                    #[trigger] ids@[k],
                ),
                forall|k: int|
                    0 <= k < i && self.jobs@[k].what.kind() == kind ==> ids@.contains(
                        (#[trigger] self.jobs@[k]).id,
                    ),
            decreases self.jobs.len() - i,
        {
            let ghost was = ids@;
            proof {
                assert forall|k: int| 0 <= k < was.len() implies is_before(
                    self.jobs@,
                    i + 1,
                    kind,
                    #[trigger] was[k],
                ) && was[k] != self.jobs@[i as int].id by {
                    assert(is_before(self.jobs@, i as int, kind, was[k]));
                    let j = choose|j: int|
                        0 <= j < i && (#[trigger] self.jobs@[j]).id == was[k]
                            && self.jobs@[j].what.kind() == kind;
                    assert(self.jobs@[j].id != self.jobs@[i as int].id);
                }
            }
            if self.jobs[i].what.kind() == kind {
                ids.push(self.jobs[i].id);
                proof {
                    assert forall|k: int|
                        0 <= k < i + 1 && self.jobs@[k].what.kind() == kind implies ids@.contains(
                        (#[trigger] self.jobs@[k]).id,
                    ) by {
                        if k < i {
                            let m = choose|m: int| 0 <= m < was.len() && was[m] == self.jobs@[k].id;
                            assert(ids@[m] == self.jobs@[k].id);
                        } else {
                            assert(ids@[was.len() as int] == self.jobs@[k].id);
                        }
                    }
                    assert forall|k: int| 0 <= k < ids@.len() implies is_before(
                        self.jobs@,
                        i + 1,
                        kind,
                        #[trigger] ids@[k],
                    ) by {
                        if k < was.len() {
                            assert(ids@[k] == was[k]);
                        } else {
                            assert(self.jobs@[i as int].id == ids@[k]);
                        }
                    }
                }
            }
            i = i + 1;
        }
        proof {
            assert forall|id: JobId| ids@.to_set().contains(id) == of_kind(self@, kind).contains(
                id,
            ) by {
                if ids@.contains(id) {
                    let k = choose|k: int| 0 <= k < ids@.len() && ids@[k] == id;
                    assert(is_before(self.jobs@, i as int, kind, ids@[k]));
                    let j = choose|j: int|
                        0 <= j < i && (#[trigger] self.jobs@[j]).id == id
                            && self.jobs@[j].what.kind() == kind;
                    lemma_entry(self.jobs@, j);
                }
                if of_kind(self@, kind).contains(id) {
                    let j = choose|j: int|
                        0 <= j < self.jobs@.len() && (#[trigger] self.jobs@[j]).id == id;
                    lemma_entry(self.jobs@, j);
                }
            }
            assert(ids@.to_set() =~= of_kind(self@, kind));
            ids@.unique_seq_to_set();
        }
        ids
    }

    /// How many jobs of `kind` are running.
    pub fn count(&self, kind: Kind) -> (n: usize)
        requires
            self.wf(),
        ensures
            n == of_kind(self@, kind).len(),
    {
        self.ids(kind).len()
    }

    /// Whether the remotes of the repository at `path` are already being fetched.
    pub fn is_fetching(&self, path: &str) -> (yes: bool)
        requires
            self.wf(),
        ensures
            yes == fetching(self@, path@),
    {
        let mut i: usize = 0;
        while i < self.jobs.len()
            invariant
                self.wf(),
                i <= self.jobs@.len(),
                forall|k: int|
                    0 <= k < i ==> !((#[trigger] self.jobs@[k]).what matches TrackedJob::Fetch(p)
                        && p@ == path@),
            decreases self.jobs.len() - i,
        {
            if let TrackedJob::Fetch(p) = &self.jobs[i].what {
                if crate::text::same_text(p.as_str(), path) {
                    proof {
                        lemma_entry(self.jobs@, i as int);
                        assert(self@.contains_key(self.jobs@[i as int].id));
                    }
                    return true;
                }
            }
            i = i + 1;
        }
        proof {
            if fetching(self@, path@) {
                let id = choose|id: JobId| #[trigger]
                    self@.contains_key(id) && (self@[id] matches TrackedJob::Fetch(p) && p@
                        == path@);
                let j = choose|j: int|
                    0 <= j < self.jobs@.len() && (#[trigger] self.jobs@[j]).id == id;
                lemma_entry(self.jobs@, j);
            }
        }
        false
    }

    /// Whether a job of `kind` is running at all.
    pub fn any(&self, kind: Kind) -> (yes: bool)
        requires
            self.wf(),
        ensures
            yes == !of_kind(self@, kind).is_empty(),
            yes == (of_kind(self@, kind).len() > 0),
    {
        let ids = self.ids(kind);
        proof {
            if ids@.len() > 0 {
                assert(ids@.to_set().contains(ids@[0]));
            } else {
                assert(ids@.to_set() =~= Set::<JobId>::empty());
            }
        }
        ids.len() > 0
    }

    /// Whether `id` is still wanted.
    pub fn contains(&self, id: JobId) -> (yes: bool)
        requires
            self.wf(),
        ensures
            yes == self@.contains_key(id),
    {
        self.position(id).is_some()
    }

    /// How many jobs are running, of every kind.
    pub fn len(&self) -> (n: usize)
        requires
            self.wf(),
        ensures
            n == self@.dom().len(),
    {
        proof {
            let ids = self.jobs@.map_values(|f: Flight| f.id);
            assert(ids.no_duplicates()) by {
                assert forall|a: int, b: int|
                    0 <= a < ids.len() && 0 <= b < ids.len() && a != b implies ids[a] != ids[b] by {
                    if a < b {
                        assert(self.jobs@[a].id != self.jobs@[b].id);
                    } else {
                        assert(self.jobs@[b].id != self.jobs@[a].id);
                    }
                }
            }
            assert forall|id: JobId| ids.to_set().contains(id) == self@.dom().contains(id) by {
                if ids.contains(id) {
                    let k = choose|k: int| 0 <= k < ids.len() && ids[k] == id;
                    assert(self.jobs@[k].id == id);
                }
                if self@.dom().contains(id) {
                    let j = choose|j: int|
                        0 <= j < self.jobs@.len() && (#[trigger] self.jobs@[j]).id == id;
                    assert(ids[j] == id);
                }
            }
            assert(ids.to_set() =~= self@.dom());
            ids.unique_seq_to_set();
        }
        self.jobs.len()
    }

    pub fn is_empty(&self) -> (yes: bool)
        requires
            self.wf(),
        ensures
            yes == (self@ == Map::<JobId, TrackedJob>::empty()),
    {
        proof {
            if self.jobs@.len() == 0 {
                assert(self@ =~= Map::<JobId, TrackedJob>::empty());
            } else {
                lemma_entry(self.jobs@, 0);
            }
        }
        self.jobs.len() == 0
    }
}

/// `id` is one of the first `n` jobs and of this kind.
spec fn is_before(jobs: Seq<Flight>, n: int, kind: Kind, id: JobId) -> bool {
    exists|j: int| 0 <= j < n && (#[trigger] jobs[j]).id == id && jobs[j].what.kind() == kind
}

// ---------------------------------------------------------------------------
// Laws
// ---------------------------------------------------------------------------

/// The staleness rule: once a job was finished or forgotten, no later answer of
/// it is wanted, and it is counted nowhere.
pub proof fn law_finished_once(jobs: Map<JobId, TrackedJob>, id: JobId, kind: Kind)
    ensures
        !jobs.remove(id).contains_key(id),
        !of_kind(jobs.remove(id), kind).contains(id),
        jobs.remove(id).remove(id) == jobs.remove(id),
{
    assert(jobs.remove(id).remove(id) =~= jobs.remove(id));
}

/// Every category is part of the whole, and no job is in two of them.
pub proof fn law_categories_are_apart(
    jobs: Map<JobId, TrackedJob>,
    id: JobId,
    a: Kind,
    b: Kind,
)
    requires
        of_kind(jobs, a).contains(id),
    ensures
        jobs.contains_key(id),
        of_kind(jobs, b).contains(id) ==> a == b,
{
}

/// Giving up one job leaves every other job of every kind as it was.
pub proof fn law_others_are_undisturbed(
    jobs: Map<JobId, TrackedJob>,
    gone: JobId,
    other: JobId,
    kind: Kind,
)
    requires
        gone != other,
    ensures
        of_kind(jobs.remove(gone), kind).contains(other) == of_kind(jobs, kind).contains(other),
        jobs.contains_key(other) ==> jobs.remove(gone)[other] == jobs[other],
{
}

/// Every job is of the kind that it was handed over as.
pub proof fn law_a_job_is_of_its_own_kind(what: TrackedJob)
    ensures
        what is Scan <==> what.kind() == Kind::Scan,
        what is Refresh <==> what.kind() == Kind::Refresh,
        what is Fetch <==> what.kind() == Kind::Fetch,
        what is Hooks <==> what.kind() == Kind::Hooks,
        what is Routed <==> what.kind() == Kind::Routed,
{
}

/// A new job is counted among its own kind and no other.
pub proof fn law_a_new_job_counts_among_its_kind(
    jobs: Map<JobId, TrackedJob>,
    id: JobId,
    what: TrackedJob,
    kind: Kind,
)
    requires
        !jobs.contains_key(id),
    ensures
        what.kind() == kind ==> of_kind(jobs.insert(id, what), kind) == of_kind(jobs, kind).insert(
            id,
        ),
        what.kind() != kind ==> of_kind(jobs.insert(id, what), kind) == of_kind(jobs, kind),
{
    let more = jobs.insert(id, what);
    if what.kind() == kind {
        assert(of_kind(more, kind) =~= of_kind(jobs, kind).insert(id));
    } else {
        assert(of_kind(more, kind) =~= of_kind(jobs, kind));
    }
}

/// A repository is being fetched exactly while a fetch of its own is out: that of
/// another does not count, and neither does other work on it.
pub proof fn law_a_fetch_is_of_one_repository(
    jobs: Map<JobId, TrackedJob>,
    id: JobId,
    what: TrackedJob,
    path: Seq<char>,
)
    requires
        !jobs.contains_key(id),
    ensures
        fetching(jobs.insert(id, what), path) <==> fetching(jobs, path) || (
        what matches TrackedJob::Fetch(of) && of@ == path),
        !fetching(Map::<JobId, TrackedJob>::empty(), path),
{
    let more = jobs.insert(id, what);
    if fetching(jobs, path) {
        let other = choose|other: JobId| #[trigger]
            jobs.contains_key(other) && (jobs[other] matches TrackedJob::Fetch(p) && p@ == path);
        assert(more.contains_key(other));
    }
    if what matches TrackedJob::Fetch(of) && of@ == path {
        assert(more.contains_key(id));
    }
    if fetching(more, path) {
        let other = choose|other: JobId| #[trigger]
            more.contains_key(other) && (more[other] matches TrackedJob::Fetch(p) && p@ == path);
        if other != id {
            assert(jobs.contains_key(other));
        }
    }
}

} // verus!
