//! What outlives any single popup, lent to a popup while it runs.
//!
//! A popup reaches neither the pool nor the disk. What it wants done is left
//! here: slow work in [`AppContext::background`], which the application submits
//! once the stack has settled, and quick work in [`AppContext::effects`], which
//! is carried out at once and whose answer comes back through the methods below.

use vstd::prelude::*;

use crate::cli::Args;
use crate::components::confirm::ConfirmComponent;
use crate::components::create_worktree::CreateWorktreeComponent;
use crate::components::help::HelpComponent;
use crate::components::notify::{Notifications, Severity};
use crate::components::pr_worktree::{PrStep, PrWorktreeComponent, MERGED_BRANCH_WARNING};
use crate::components::repositories::{RepositoriesComponent, RepositoriesModal};
use crate::components::select_directory::SelectDirectoryComponent;
use crate::components::worktrees::row::SpaceEntry;
use crate::components::worktrees::{undeletable, Deletion, WorktreesComponent};
use crate::github::opt_text;
use crate::hooks::{HookPlan, HookTarget};
use crate::jobs::Job;
use crate::space_meta::SpaceMeta;
use crate::vcs::{Backend, Repo, Space};

verus! {

/// A popup.
#[derive(Debug, PartialEq, Eq)]
pub enum Modal {
    Repositories(RepositoriesModal),
    CreateWorktree(CreateWorktreeComponent),
    Confirm(ConfirmComponent),
    Help(HelpComponent),
    PrWorktree(PrWorktreeComponent),
    SelectReposDir(SelectDirectoryComponent),
}

/// What a popup asks of the stack after a key.
#[derive(Debug, PartialEq, Eq)]
pub enum ModalFlow {
    /// Handled; the popup stays open.
    Consumed,
    /// Not handled; the key means nothing here.
    Ignored,
    /// Take this popup off.
    Close,
    /// Put another in its place.
    Replace(Modal),
}

/// Slow work a popup cannot run itself.
#[derive(Debug, PartialEq, Eq)]
pub enum BackgroundWork {
    /// Run this job and carry on with the step.
    Routed { job: Job, step: PrStep },
    /// Nobody waits for the routed job any more.
    Abandon,
    /// Set a freshly created space up.
    Hooks(HookPlan),
}

/// A space to create, and what to say once it is there.
#[derive(Debug, PartialEq, Eq)]
pub struct Creation {
    pub repo: Repo,
    pub name: String,
    /// The pull request the space is for.
    pub pr_url: Option<String>,
    /// Whether that pull request is merged already.
    pub merged: bool,
    /// An advisory, unless there is something more urgent to say.
    pub notice: Option<String>,
}

/// Quick work on a repository or on disk, in the order it was asked for.
#[derive(Debug, PartialEq, Eq)]
pub enum Effect {
    /// Refresh the repository's view of its remotes. A failure only leaves the
    /// view stale.
    RefreshRemotes { repo: Repo },
    /// Find what a space of this name would start from.
    ResolveBase { repo: Repo, name: String },
    CreateSpace(Creation),
    /// Find what deleting a space would cost, and delete it outright if that is
    /// wanted and nothing is at risk.
    AssessDeletion { space: Space, owner: Option<Repo>, forced: bool },
    DeleteSpace(Deletion),
    /// Write the record of the spaces' pull requests.
    SaveMeta,
}

/// The state shared by every popup and the list beneath them.
#[derive(Debug)]
pub struct AppContext {
    pub worktrees: WorktreesComponent,
    pub repositories: RepositoriesComponent,
    pub notify: Notifications,
    pub args: Args,
    pub meta: SpaceMeta,
    pub background: Vec<BackgroundWork>,
    pub effects: Vec<Effect>,
    /// The moment the messages are said at.
    pub now: u64,
}

/// Whether a creation is this one.
pub open spec fn is_creation(
    creation: Creation,
    repo: Repo,
    name: Seq<char>,
    pr_url: Option<Seq<char>>,
    merged: bool,
    notice: Option<Seq<char>>,
) -> bool {
    &&& creation.repo == repo
    &&& creation.name@ == name
    &&& opt_text(creation.pr_url) == pr_url
    &&& creation.merged == merged
    &&& opt_text(creation.notice) == notice
}

/// Said where a space is wanted and no repository is picked.
pub const NO_REPOSITORY: &'static str = "no repository is selected";

/// The row a space gets.
pub open spec fn row_for(repo: Repo, space: Space) -> SpaceEntry {
    SpaceEntry { repo_name: repo.name, repo_path: repo.path, space }
}

/// What hooks are told of a space.
pub open spec fn target_of(repo: Repo, space: Space) -> HookTarget {
    HookTarget {
        space_path: space.path,
        space_name: space.name,
        repo_path: repo.path,
        repo_name: repo.name,
        backend: space.backend,
    }
}

/// What is on show after a space was created.
pub open spec fn creation_news(creation: Creation, now: u64) -> Option<(Severity, Seq<char>, u64)> {
    if creation.merged {
        Some((Severity::Warning, MERGED_BRANCH_WARNING@, now))
    } else {
        match creation.notice {
            Some(notice) => Some((Severity::Info, notice@, now)),
            None => None,
        }
    }
}

impl AppContext {
    pub open spec fn wf(self) -> bool {
        &&& self.worktrees.wf()
        &&& self.repositories.wf()
        &&& self.meta.wf()
    }

    /// This context with other repositories.
    pub open spec fn with_repositories(self, repositories: RepositoriesComponent) -> AppContext {
        AppContext { repositories, ..self }
    }

    /// Whether `next` is this context with this on show.
    pub open spec fn told(self, news: Option<(Severity, Seq<char>, u64)>, next: AppContext) -> bool {
        &&& next.notify@ == news
        &&& next == (AppContext { notify: next.notify, ..self })
    }

    /// Whether `next` is this context after something failed.
    pub open spec fn failed(self, text: Seq<char>, next: AppContext) -> bool {
        self.told(Some((Severity::Error, text, self.now)), next)
    }

    /// Whether `next` is this context with one more piece of quick work.
    pub open spec fn asked(self, effect: Effect, next: AppContext) -> bool {
        &&& next.effects@ == self.effects@.push(effect)
        &&& next == (AppContext { effects: next.effects, ..self })
    }

    /// Whether `next` is this context with one more piece of slow work.
    pub open spec fn raised(self, work: BackgroundWork, next: AppContext) -> bool {
        &&& next.background@ == self.background@.push(work)
        &&& next == (AppContext { background: next.background, ..self })
    }

    /// Leaves slow work to be submitted once the stack has settled.
    pub fn run_in_background(&mut self, work: BackgroundWork)
        ensures
            old(self).raised(work, *final(self)),
    {
        self.background.push(work);
    }

    /// Leaves quick work to be carried out.
    pub fn ask(&mut self, effect: Effect)
        ensures
            old(self).asked(effect, *final(self)),
    {
        self.effects.push(effect);
    }

    /// Says what failed.
    pub fn report(&mut self, text: &str)
        ensures
            old(self).failed(text@, *final(self)),
    {
        self.notify.error(text, self.now);
    }

    /// Whether `next` is this context with a space asked for, or the reason it
    /// cannot be.
    pub open spec fn wanted(
        self,
        repo: Option<Repo>,
        name: Seq<char>,
        pr_url: Option<Seq<char>>,
        merged: bool,
        notice: Option<Seq<char>>,
        next: AppContext,
    ) -> bool {
        match repo {
            Some(repo) => {
                &&& next.effects@.len() == self.effects@.len() + 1
                &&& next.effects@.last() matches Effect::CreateSpace(creation)
                &&& is_creation(creation, repo, name, pr_url, merged, notice)
                &&& self.asked(Effect::CreateSpace(creation), next)
            },
            None => self.failed(NO_REPOSITORY@, next),
        }
    }

    /// Asks for a space in the selected repository, through the backend that
    /// owns it.
    pub fn create_space(
        &mut self,
        name: &str,
        pr_url: Option<String>,
        merged: bool,
        notice: Option<String>,
    )
        ensures
            old(self).wanted(
                old(self).repositories.selected(),
                name@,
                opt_text(pr_url),
                merged,
                opt_text(notice),
                *final(self),
            ),
    {
        let repo = match self.repositories.selected_repository() {
            Some(repo) => repo.clone(),
            None => {
                self.report(NO_REPOSITORY);
                return;
            },
        };
        self.ask(
            Effect::CreateSpace(Creation { repo, name: name.to_owned(), pr_url, merged, notice }),
        );
    }

    /// Asks for a space in the selected repository, through `backend`.
    pub fn create_space_via(&mut self, name: &str, backend: Backend, pr_url: Option<String>)
        ensures
            old(self).wanted(
                old(self).repositories.selected_through(backend),
                name@,
                opt_text(pr_url),
                false,
                None,
                *final(self),
            ),
    {
        let repo = match self.repositories.selected_backend(backend) {
            Some(repo) => repo.clone(),
            None => {
                self.report(NO_REPOSITORY);
                return;
            },
        };
        self.ask(
            Effect::CreateSpace(
                Creation { repo, name: name.to_owned(), pr_url, merged: false, notice: None },
            ),
        );
    }

    /// Whether `next` is this context with a created space taken in: its row is
    /// there, its hooks are left to run if it has any, its pull request is
    /// remembered, and a failure that was on show is not any more.
    pub open spec fn welcomed(self, creation: Creation, space: Space, next: AppContext) -> bool {
        &&& self.worktrees.added(row_for(creation.repo, space), next.worktrees)
        &&& exists|plan: HookPlan|
            {
                &&& #[trigger] self.args.hooks.planned(target_of(creation.repo, space), plan)
                &&& next.background@ == (if plan.copies@.len() == 0 && plan.commands@.len() == 0 {
                    self.background@
                } else {
                    self.background@.push(BackgroundWork::Hooks(plan))
                })
            }
        &&& match creation.pr_url {
            Some(url) => self.meta.remembered(space.path@, url@, next.meta) && next.effects@
                == self.effects@.push(Effect::SaveMeta),
            None => next.meta == self.meta && next.effects == self.effects,
        }
        &&& next.notify@ == creation_news(creation, self.now)
        &&& next == (AppContext {
            worktrees: next.worktrees,
            background: next.background,
            meta: next.meta,
            effects: next.effects,
            notify: next.notify,
            ..self
        })
    }

    /// Takes in what came of a creation.
    pub fn space_created(&mut self, creation: Creation, outcome: Result<Space, String>)
        requires
            old(self).wf(),
        ensures
            final(self).wf(),
            match outcome {
                Ok(space) => old(self).welcomed(creation, space, *final(self)),
                Err(error) => old(self).failed(error@, *final(self)),
            },
    {
        let space = match outcome {
            Ok(space) => space,
            Err(error) => {
                self.report(error.as_str());
                return;
            },
        };
        let target = HookTarget {
            space_path: space.path.clone(),
            space_name: space.name.clone(),
            repo_path: creation.repo.path.clone(),
            repo_name: creation.repo.name.clone(),
            backend: space.backend,
        };
        let plan = self.args.hooks.plan(target);
        assert(self.args.hooks.planned(target_of(creation.repo, space), plan));
        if !plan.is_empty() {
            self.background.push(BackgroundWork::Hooks(plan));
        }
        let path = space.path.clone();
        let entry = SpaceEntry {
            repo_name: creation.repo.name,
            repo_path: creation.repo.path,
            space,
        };
        self.worktrees.add(entry);
        if let Some(url) = creation.pr_url {
            self.meta.remember_pr(path.as_str(), url);
            self.effects.push(Effect::SaveMeta);
        }
        if creation.merged {
            self.notify.warn(MERGED_BRANCH_WARNING, self.now);
        } else {
            match creation.notice {
                Some(notice) => self.notify.info(notice.as_str(), self.now),
                None => self.notify.clear(),
            }
        }
    }

    /// Whether `next` is this context with the deletion of the selected space
    /// asked for, or the reason it cannot be.
    pub open spec fn deletion_wanted(self, next: AppContext) -> bool {
        match self.worktrees.doomed() {
            Some(space) => match self.repositories.owner_of(space) {
                Some(repo) => self.asked(Effect::DeleteSpace(Deletion { space, repo }), next),
                None => self.failed(undeletable(space.name@), next),
            },
            None => self.told(None, next),
        }
    }

    /// Asks for the deletion of the selected space.
    pub fn delete_selected(&mut self)
        ensures
            old(self).deletion_wanted(*final(self)),
    {
        match self.worktrees.delete_selected_space(&self.repositories) {
            Ok(Some(deletion)) => self.ask(Effect::DeleteSpace(deletion)),
            Ok(None) => self.notify.clear(),
            Err(error) => self.report(error.as_str()),
        }
    }

    /// Whether `next` is this context after a deletion came to its end: the row
    /// goes only if the space is gone.
    pub open spec fn deleted(
        self,
        path: Seq<char>,
        outcome: Result<(), String>,
        next: AppContext,
    ) -> bool {
        match outcome {
            Ok(_) => {
                &&& self.worktrees.forgot(path, next.worktrees)
                &&& next.notify@ is None
                &&& next == (AppContext { worktrees: next.worktrees, notify: next.notify, ..self })
            },
            Err(error) => self.failed(error@, next),
        }
    }

    /// Takes in what came of the deletion of the space at `path`.
    pub fn space_deleted(&mut self, path: &str, outcome: Result<(), String>)
        requires
            old(self).wf(),
        ensures
            final(self).wf(),
            old(self).deleted(path@, outcome, *final(self)),
    {
        match outcome {
            Ok(_) => {
                self.worktrees.forget_space(path);
                self.notify.clear();
            },
            Err(error) => self.report(error.as_str()),
        }
    }
}

} // verus!
