//! Discovery, re-reads and fetches: what is handed to the pool, and what is made
//! of the answers.

use vstd::prelude::*;

use super::{App, PrFlow};
use crate::cli::copy_all;
use crate::components::context::AppContext;
use crate::components::notify::Severity;
use crate::components::repositories::{
    entries_of, first_paths, listed_spaces, spaces_of, unlisted, Listing, RepositoriesComponent,
};
use crate::components::worktrees::row::SpaceEntry;
use crate::components::worktrees::{rows_of_others, untouched};
use crate::hooks::summary_text;
use crate::jobs::background::{Background, Effort};
use crate::jobs::in_flight::{fetching, Kind, TrackedJob};
use crate::jobs::{Completion, Job, JobId, JobKind, JobResult, Worker};
use crate::text::{concat, join, joined, views};
use crate::vcs::{Repo, RepoId, Space};

verus! {

/// Whether `jobs` walks each root by itself, in order.
pub open spec fn are_scans(
    jobs: Seq<(Job, TrackedJob)>,
    roots: Seq<String>,
    excluded: Seq<String>,
) -> bool {
    &&& jobs.len() == roots.len()
    &&& forall|i: int| 0 <= i < jobs.len() ==> is_scan(#[trigger] jobs[i], roots[i], excluded)
}

/// Whether this job walks one root.
pub open spec fn is_scan(job: (Job, TrackedJob), root: String, excluded: Seq<String>) -> bool {
    &&& job.1 is Scan
    &&& job.0 matches Job::ScanRepositories { roots: walked, excluded: left_out }
    &&& walked@ == seq![root]
    &&& left_out@ == excluded
}

/// The re-reads of repositories.
pub open spec fn rereads(paths: Seq<String>) -> Seq<(Job, TrackedJob)> {
    paths.map_values(|path: String| (Job::SpaceStatus { path }, TrackedJob::Refresh))
}

/// The fetches of repositories.
pub open spec fn fetches(paths: Seq<String>) -> Seq<(Job, TrackedJob)> {
    paths.map_values(|path: String| (Job::FetchRemotes { path }, TrackedJob::Fetch(path)))
}

/// Whether `next` is the slow work after a scan was started anew: the scans and
/// re-reads that were out are given up.
pub open spec fn rescanned(
    effort: Effort,
    roots: Seq<String>,
    excluded: Seq<String>,
    next: Effort,
) -> bool {
    exists|unscanned: Effort, free: Effort, jobs: Seq<(Job, TrackedJob)>|
        #![trigger effort.without_kind(Kind::Scan, unscanned), unscanned.without_kind(Kind::Refresh, free), are_scans(jobs, roots, excluded)]
        {
            &&& effort.without_kind(Kind::Scan, unscanned)
            &&& unscanned.without_kind(Kind::Refresh, free)
            &&& are_scans(jobs, roots, excluded)
            &&& next == free.with_jobs(jobs)
        }
}

/// Said of repositories whose spaces could not be read.
pub open spec fn unlisted_text(names: Seq<String>) -> Seq<char> {
    "Could not list the spaces of "@ + joined(views(names), ", "@)
}

/// Tells which repositories could not be asked for their spaces: a list that is
/// silently short would read as spaces lost.
pub fn listing_failure_notice(failed: &Vec<String>) -> (notice: Option<String>)
    ensures
        match notice {
            Some(text) => failed@.len() > 0 && text@ == unlisted_text(failed@),
            None => failed@.len() == 0,
        },
{
    if failed.len() == 0 {
        return None;
    }
    Some(concat("Could not list the spaces of ", join(failed, ", ").as_str()))
}

/// The repositories of some listings.
pub open spec fn repos_of(listings: Seq<Listing>) -> Seq<Repo> {
    listings.map_values(|listing: Listing| listing.repo)
}

/// Said of a job that failed.
pub open spec fn failure_text(kind: JobKind, error: Seq<char>) -> Seq<char> {
    kind.name()@ + " failed: "@ + error
}

/// Said of a space whose repository is not open.
pub open spec fn unowned(path: Seq<char>) -> Seq<char> {
    "no open repository owns "@ + path
}

impl App {
    /// This application with other slow work.
    pub open spec fn with_background(self, background: Background) -> App {
        App { background, ..self }
    }

    /// This application with another context.
    pub open spec fn with_ctx(self, ctx: AppContext) -> App {
        App { ctx, ..self }
    }

    fn submit_each(&mut self, jobs: Vec<(Job, TrackedJob)>)
        requires
            old(self).wf(),
        ensures
            final(self).wf(),
            final(self).background@ == old(self).background@.with_jobs(jobs@),
            *final(self) == old(self).with_background(final(self).background),
    {
        let ghost all = jobs@;
        let mut jobs = jobs;
        let ghost mut done: int = 0;
        assert(all.take(0) =~= Seq::<(Job, TrackedJob)>::empty());
        while jobs.len() > 0
            invariant
                self.wf(),
                0 <= done <= all.len(),
                jobs@ == all.skip(done),
                self.background@ == old(self).background@.with_jobs(all.take(done)),
                *self == old(self).with_background(self.background),
            decreases jobs.len(),
        {
            let (job, what) = jobs.remove(0);
            proof {
                assert((job, what) == all[done]);
                assert(all.take(done + 1).drop_last() =~= all.take(done));
                assert(all.take(done + 1).last() == all[done]);
                assert(jobs@ =~= all.skip(done + 1));
                done = done + 1;
            }
            self.background.submit(job, what);
        }
        assert(all.take(done) =~= all);
    }

    // -----------------------------------------------------------------------
    // The pool
    // -----------------------------------------------------------------------

    /// Whether `next` is this application with a pool and a scan started on it.
    pub open spec fn attached(self, worker: Worker, next: App) -> bool {
        self.with_background(
            Background { worker: Some(worker), in_flight: self.background.in_flight },
        ).scan_started(next)
    }

    /// Gives the application somewhere to put slow work, and starts discovery.
    pub fn attach_worker(&mut self, worker: Worker)
        requires
            old(self).wf(),
            old(self).background@.out == Map::<JobId, TrackedJob>::empty(),
            worker.wf(),
        ensures
            final(self).wf(),
            old(self).attached(worker, *final(self)),
    {
        self.background.worker = Some(worker);
        self.start_scan();
    }

    /// Whether `next` is this application without a pool: nothing is waited for.
    pub open spec fn detached(self, next: App) -> bool {
        exists|idle: App|
            {
                &&& idle.background@.out == Map::<JobId, TrackedJob>::empty()
                &&& idle.background.worker == self.background.worker
                &&& #[trigger] idle.indicated().with_background(next.background) == next
                &&& idle == (App {
                    background: idle.background,
                    pr_flow: None::<PrFlow>,
                    ..self
                })
                &&& next.background@ == (Effort { pool: None, out: Map::empty() })
            }
    }

    /// Drops the pool, and with it everything queued.
    pub fn detach_worker(&mut self)
        requires
            old(self).wf(),
        ensures
            final(self).wf(),
            old(self).detached(*final(self)),
    {
        self.background.in_flight.clear();
        self.pr_flow = None;
        let ghost idle = *self;
        self.update_scan_indicator();
        self.background.worker = None;
        assert(idle.indicated().with_background(self.background) == *self);
    }

    // -----------------------------------------------------------------------
    // Scans
    // -----------------------------------------------------------------------

    /// Whether `mid` is this application with an empty list and a scan out for
    /// each root.
    pub open spec fn emptied(self, mid: App) -> bool {
        &&& mid.scan_found == 0
        &&& self.ctx.repositories.replaced(Seq::empty(), mid.ctx.repositories)
        &&& self.ctx.worktrees.relisted(Seq::empty(), mid.ctx.worktrees)
        &&& rescanned(self.background@, self.scan_roots@, self.excluded@, mid.background@)
        &&& mid == (App {
            scan_found: 0,
            ctx: AppContext {
                repositories: mid.ctx.repositories,
                worktrees: mid.ctx.worktrees,
                ..self.ctx
            },
            background: mid.background,
            ..self
        })
    }

    /// Whether `next` is this application after a scan was started.
    pub open spec fn scan_started(self, next: App) -> bool {
        exists|mid: App| #[trigger] self.emptied(mid) && next == mid.indicated()
    }

    /// Starts discovery, one job for each configured directory: the faster one
    /// fills the list while the slower is still being walked. A scan that is
    /// already running is given up and the list emptied first, and so is every
    /// re-read: a scan reads everything again.
    pub fn start_scan(&mut self)
        requires
            old(self).wf(),
        ensures
            final(self).wf(),
            old(self).scan_started(*final(self)),
    {
        self.background.abandon_all(Kind::Scan);
        let ghost unscanned = self.background@;
        self.background.abandon_all(Kind::Refresh);
        let ghost free = self.background@;
        let none: Vec<Repo> = Vec::new();
        self.ctx.repositories.replace_backends(none);
        let no_rows: Vec<SpaceEntry> = Vec::new();
        self.ctx.worktrees.set_spaces(no_rows);
        self.scan_found = 0;

        let mut jobs: Vec<(Job, TrackedJob)> = Vec::new();
        let mut i: usize = 0;
        while i < self.scan_roots.len()
            invariant
                i <= self.scan_roots@.len(),
                jobs@.len() == i,
                forall|k: int|
                    0 <= k < i ==> is_scan(
                        #[trigger] jobs@[k],
                        self.scan_roots@[k],
                        self.excluded@,
                    ),
            decreases self.scan_roots.len() - i,
        {
            let mut roots: Vec<String> = Vec::new();
            roots.push(self.scan_roots[i].clone());
            let excluded = copy_all(&self.excluded);
            let job = Job::ScanRepositories { roots, excluded };
            assert(roots@ =~= seq![self.scan_roots@[i as int]]);
            jobs.push((job, TrackedJob::Scan));
            i = i + 1;
        }
        assert(are_scans(jobs@, self.scan_roots@, self.excluded@));
        self.submit_each(jobs);
        proof {
            assert(old(self).background@.without_kind(Kind::Scan, unscanned));
            assert(unscanned.without_kind(Kind::Refresh, free));
            assert(old(self).emptied(*self));
        }
        self.update_scan_indicator();
    }

    // -----------------------------------------------------------------------
    // Re-reads
    // -----------------------------------------------------------------------

    /// Whether `mid` is this application with one re-read out for each
    /// repository, in place of those that were out.
    pub open spec fn reread(self, mid: App) -> bool {
        &&& exists|free: Effort|
            {
                &&& #[trigger] self.background@.without_kind(Kind::Refresh, free)
                &&& mid.background@ == free.with_jobs(
                    rereads(first_paths(self.ctx.repositories.repositories@)),
                )
            }
        &&& mid == self.with_background(mid.background)
    }

    /// Whether `next` is this application after a refresh was asked for. While a
    /// scan runs nothing happens: it reads everything again already.
    pub open spec fn refresh_started(self, next: App) -> bool {
        if self.scanning() {
            next == self
        } else {
            exists|mid: App| #[trigger] self.reread(mid) && next == mid.indicated()
        }
    }

    /// Re-reads the spaces of every repository already discovered, one job for
    /// each. A second press gives up the round still out.
    pub fn start_refresh(&mut self)
        requires
            old(self).wf(),
        ensures
            final(self).wf(),
            old(self).refresh_started(*final(self)),
    {
        if self.is_scanning() {
            return;
        }
        self.background.abandon_all(Kind::Refresh);
        let ghost free = self.background@;
        let paths = self.ctx.repositories.repository_paths();
        let mut jobs: Vec<(Job, TrackedJob)> = Vec::new();
        let ghost wanted = rereads(paths@);
        let mut i: usize = 0;
        while i < paths.len()
            invariant
                i <= paths@.len(),
                wanted == rereads(paths@),
                jobs@ == wanted.take(i as int),
            decreases paths.len() - i,
        {
            jobs.push((Job::SpaceStatus { path: paths[i].clone() }, TrackedJob::Refresh));
            assert(jobs@ =~= wanted.take(i + 1));
            i = i + 1;
        }
        assert(jobs@ =~= wanted);
        self.submit_each(jobs);
        assert(old(self).background@.without_kind(Kind::Refresh, free));
        assert(old(self).reread(*self));
        self.update_scan_indicator();
    }

    /// Queues a re-read of one repository.
    fn refresh_repository(&mut self, path: String)
        requires
            old(self).wf(),
        ensures
            final(self).wf(),
            final(self).background@ == old(self).background@.with_job(
                Job::SpaceStatus { path },
                TrackedJob::Refresh,
            ),
            *final(self) == old(self).with_background(final(self).background),
    {
        self.background.submit(Job::SpaceStatus { path }, TrackedJob::Refresh);
    }

    // -----------------------------------------------------------------------
    // Fetches
    // -----------------------------------------------------------------------

    /// Whether `next` is this application after a fetch of the selected space's
    /// repository was asked for. One that is out already is not asked twice.
    pub open spec fn fetch_started(self, next: App) -> bool {
        match self.ctx.worktrees.selected() {
            None => next == self,
            Some(entry) => match self.ctx.repositories.owner_of(entry.space) {
                None => self.ctx.failed(unowned(entry.space.path@), next.ctx) && next
                    == self.with_ctx(next.ctx),
                Some(repo) => if fetching(self.background@.out, repo.path@) {
                    next == self
                } else {
                    exists|mid: App|
                        {
                            &&& mid.background@ == self.background@.with_job(
                                Job::FetchRemotes { path: repo.path },
                                TrackedJob::Fetch(repo.path),
                            )
                            &&& mid == self.with_background(mid.background)
                            &&& next == #[trigger] mid.indicated()
                        }
                },
            },
        }
    }

    /// Fetches the remotes of the repository the selected space belongs to, and
    /// of no other.
    pub fn fetch_selected(&mut self)
        requires
            old(self).wf(),
        ensures
            final(self).wf(),
            old(self).fetch_started(*final(self)),
    {
        let space = match self.ctx.worktrees.selected_space() {
            Some(space) => space,
            None => return,
        };
        let path = match self.ctx.repositories.backend_for(&space) {
            Some(repo) => repo.path.clone(),
            None => {
                let text = concat("no open repository owns ", space.path.as_str());
                self.ctx.report(text.as_str());
                return;
            },
        };
        if self.background.in_flight.is_fetching(path.as_str()) {
            return;
        }
        let fetched = path.clone();
        self.background.submit(Job::FetchRemotes { path }, TrackedJob::Fetch(fetched));
        let ghost mid = *self;
        self.update_scan_indicator();
        assert(*self == mid.indicated());
    }

    // -----------------------------------------------------------------------
    // Answers
    // -----------------------------------------------------------------------

    /// Whether the count of repositories has room for what a scan found.
    pub open spec fn has_room_for(self, outcome: Result<Completion, String>) -> bool {
        match outcome {
            Ok(Completion::Repositories(found)) => self.scan_found + found@.len() <= usize::MAX,
            _ => true,
        }
    }

    /// Whether `next` is this application with what a scan found: the
    /// repositories and their spaces join the lists, and every repository is
    /// fetched if that was asked for at the start.
    pub open spec fn found(self, found: Seq<Listing>, next: App) -> bool {
        let paths = first_paths(repos_of(found));
        &&& next.scan_found == self.scan_found + paths.len()
        &&& self.ctx.repositories.joined(repos_of(found), next.ctx.repositories)
        &&& self.ctx.worktrees.relisted(
            untouched(self.ctx.worktrees.spaces@, listed_spaces(found)) + listed_spaces(found),
            next.ctx.worktrees,
        )
        &&& next.ctx.notify@ == (if unlisted(found).len() > 0 {
            Some((Severity::Error, unlisted_text(unlisted(found)), self.ctx.now))
        } else {
            self.ctx.notify@
        })
        &&& next.background@ == (if self.ctx.args.run_fetch {
            self.background@.with_jobs(fetches(paths))
        } else {
            self.background@
        })
        &&& next == (App {
            scan_found: next.scan_found,
            ctx: AppContext {
                repositories: next.ctx.repositories,
                worktrees: next.ctx.worktrees,
                notify: next.ctx.notify,
                ..self.ctx
            },
            background: next.background,
            ..self
        })
    }

    /// Takes in what one scan found. One fetch for each repository, not for each
    /// backend: two backends on one repository share its remotes.
    fn repositories_found(&mut self, found: Vec<Listing>)
        requires
            old(self).wf(),
            old(self).scan_found + found@.len() <= usize::MAX,
        ensures
            final(self).wf(),
            old(self).found(found@, *final(self)),
    {
        let (entries, failed) = spaces_of(&found);
        let repos = all_repos(&found);
        let seen = RepositoriesComponent::new(all_repos(&found));
        let paths = seen.repository_paths();
        proof {
            lemma_first_paths_len(repos@);
        }
        self.scan_found = self.scan_found + paths.len();
        self.ctx.repositories.add_repositories(repos);
        self.ctx.worktrees.extend(entries);
        if let Some(text) = listing_failure_notice(&failed) {
            self.ctx.report(text.as_str());
        }
        if self.ctx.args.run_fetch {
            let mut jobs: Vec<(Job, TrackedJob)> = Vec::new();
            let ghost wanted = fetches(paths@);
            let mut i: usize = 0;
            while i < paths.len()
                invariant
                    i <= paths@.len(),
                    wanted == fetches(paths@),
                    jobs@ == wanted.take(i as int),
                decreases paths.len() - i,
            {
                let job = Job::FetchRemotes { path: paths[i].clone() };
                jobs.push((job, TrackedJob::Fetch(paths[i].clone())));
                assert(jobs@ =~= wanted.take(i + 1));
                i = i + 1;
            }
            assert(jobs@ =~= wanted);
            self.submit_each(jobs);
        }
    }

    /// Whether `next` is this application with one repository's spaces read
    /// again. One that has left the list is not put back.
    pub open spec fn reread_of(self, path: Seq<char>, spaces: Seq<Space>, next: App) -> bool {
        match self.ctx.repositories.repository_of(path) {
            Some(repo) => {
                &&& self.ctx.worktrees.relisted(
                    rows_of_others(self.ctx.worktrees.spaces@, path) + entries_of(repo, spaces),
                    next.ctx.worktrees,
                )
                &&& next == self.with_worktrees(next.ctx.worktrees)
            },
            None => next == self,
        }
    }

    /// Puts one repository's freshly read spaces in place of its rows. It may
    /// have none left.
    fn spaces_refreshed(&mut self, path: String, spaces: Vec<Space>)
        requires
            old(self).wf(),
        ensures
            final(self).wf(),
            old(self).reread_of(path@, spaces@, *final(self)),
    {
        let id = RepoId::from_path(path.as_str());
        let repo = match self.ctx.repositories.repository(&id) {
            Some(repo) => repo.clone(),
            None => return,
        };
        let ghost wanted = entries_of(repo, spaces@);
        let mut entries: Vec<SpaceEntry> = Vec::new();
        let mut i: usize = 0;
        while i < spaces.len()
            invariant
                i <= spaces@.len(),
                wanted == entries_of(repo, spaces@),
                entries@ == wanted.take(i as int),
            decreases spaces.len() - i,
        {
            entries.push(
                SpaceEntry {
                    repo_name: repo.name.clone(),
                    repo_path: repo.path.clone(),
                    space: spaces[i].clone(),
                },
            );
            assert(entries@ =~= wanted.take(i + 1));
            i = i + 1;
        }
        assert(entries@ =~= wanted);
        self.ctx.worktrees.replace_spaces_of(&id, entries);
    }

    /// Whether `next` is this application with an answer taken in that belongs to
    /// no pull request flow.
    pub open spec fn applied(
        self,
        kind: JobKind,
        outcome: Result<Completion, String>,
        next: App,
    ) -> bool {
        match outcome {
            Err(error) => self.ctx.failed(failure_text(kind, error@), next.ctx) && next
                == self.with_ctx(next.ctx),
            Ok(Completion::Fetched { path }) => {
                &&& next.background@ == self.background@.with_job(
                    Job::SpaceStatus { path },
                    TrackedJob::Refresh,
                )
                &&& next == self.with_background(next.background)
            },
            Ok(Completion::Spaces { path, spaces }) => self.reread_of(path@, spaces@, next),
            Ok(Completion::Repositories(found)) => self.found(found@, next),
            Ok(Completion::HooksRan(report)) => match summary_text(report) {
                Some(text) => self.ctx.failed(text, next.ctx) && next == self.with_ctx(next.ctx),
                None => next == self,
            },
            Ok(_) => next == self,
        }
    }

    fn apply(&mut self, kind: JobKind, outcome: Result<Completion, String>)
        requires
            old(self).wf(),
            old(self).has_room_for(outcome),
        ensures
            final(self).wf(),
            old(self).applied(kind, outcome, *final(self)),
    {
        match outcome {
            Err(error) => {
                let mut text = concat(kind.name(), " failed: ");
                text.append(error.as_str());
                self.ctx.report(text.as_str());
            },
            Ok(Completion::Fetched { path }) => self.refresh_repository(path),
            Ok(Completion::Spaces { path, spaces }) => self.spaces_refreshed(path, spaces),
            Ok(Completion::Repositories(found)) => self.repositories_found(found),
            Ok(Completion::HooksRan(report)) => {
                if let Some(text) = report.summary() {
                    self.ctx.report(text.as_str());
                }
            },
            Ok(_) => {},
        }
    }

    /// This application without a job that has answered.
    pub open spec fn is_answered(self, id: JobId, next: App) -> bool {
        &&& next.background@ == (Effort {
            out: self.background@.out.remove(id),
            ..self.background@
        })
        &&& next == self.with_background(next.background)
    }

    /// Whether the pull request flow waits for this job.
    pub open spec fn flow_waits_for(self, id: JobId) -> bool {
        self.pr_flow matches Some(flow) && flow.id == id
    }

    /// What a finished job does to the application. An answer nobody waits for
    /// does nothing.
    pub open spec fn job_handled(self, result: JobResult, next: App) -> bool {
        if !self.background@.out.contains_key(result.id) {
            next == self
        } else {
            exists|mid: App|
                {
                    &&& #[trigger] self.is_answered(result.id, mid)
                    &&& if self.flow_waits_for(result.id) {
                        mid.flow_resumed(result.outcome, next)
                    } else {
                        exists|done: App|
                            {
                                &&& mid.applied(result.kind, result.outcome, done)
                                &&& next == #[trigger] done.indicated()
                            }
                    }
                }
        }
    }

    /// Takes in a finished job, or drops its answer if nobody waits for it any
    /// more: a slow answer never overwrites a newer one.
    pub fn handle_job(&mut self, result: JobResult)
        requires
            old(self).wf(),
            old(self).has_room_for(result.outcome),
        ensures
            final(self).wf(),
            old(self).job_handled(result, *final(self)),
    {
        if !self.background.in_flight.contains(result.id) {
            return;
        }
        self.background.in_flight.finish(result.id);
        let ghost mid = *self;
        assert(old(self).is_answered(result.id, mid));
        let waits = match &self.pr_flow {
            Some(flow) => flow.id == result.id,
            None => false,
        };
        if waits {
            self.resume_pr(result.outcome);
            return;
        }
        self.apply(result.kind, result.outcome);
        let ghost done = *self;
        self.update_scan_indicator();
        assert(*self == done.indicated());
    }
}

fn all_repos(found: &Vec<Listing>) -> (repos: Vec<Repo>)
    ensures
        repos@ == repos_of(found@),
{
    let ghost wanted = repos_of(found@);
    let mut repos: Vec<Repo> = Vec::new();
    let mut i: usize = 0;
    while i < found.len()
        invariant
            i <= found@.len(),
            wanted == repos_of(found@),
            repos@ == wanted.take(i as int),
        decreases found.len() - i,
    {
        repos.push(found[i].repo.clone());
        assert(repos@ =~= wanted.take(i + 1));
        i = i + 1;
    }
    assert(repos@ =~= wanted);
    repos
}

proof fn lemma_first_paths_len(repos: Seq<Repo>)
    ensures
        first_paths(repos).len() <= repos.len(),
    decreases repos.len(),
{
    if repos.len() > 0 {
        lemma_first_paths_len(repos.drop_last());
    }
}

} // verus!
