//! The steps of the pull request flow that follow an answer.

use vstd::prelude::*;

use crate::cli::copy_all;
use crate::components::confirm::{ConfirmComponent, Gate, Work};
use crate::components::context::{
    is_creation, AppContext, BackgroundWork, Effect, Modal, ModalFlow, NO_REPOSITORY,
};
use crate::components::create_worktree::CreateWorktreeComponent;
use crate::components::notify::Severity;
use crate::components::pr_worktree::{
    clone_message, clone_notice, clone_text, git_clone_notice, Flow, PrStep, PrWorktreeComponent,
    Stage, MERGED_BRANCH_WARNING,
};
use crate::components::repositories::{backends_on, RepositoriesComponent};
use crate::components::select_directory::{CloneRequest, SelectDirectoryComponent};
use crate::github::{opt_text, remote_of, url_of, PrInfo, PrUrl};
use crate::jobs::{completion_text, Completion, Job};
use crate::text::concat;
use crate::vcs::{Backend, Repo};

verus! {

/// Said where a clone has nowhere to go.
pub const NO_REPOS_DIR: &'static str = "no repos directory is configured";

/// Said of a merged pull request whose space is there already.
pub const MERGED_AND_SELECTED: &'static str = "PR is merged \u{2014} existing worktree selected";

/// The question before a clone.
pub open spec fn clone_question(repo: Seq<char>) -> Seq<char> {
    "Repository '"@ + repo + "' not found. Clone from GitHub with git?"@
}

/// Said of a clone that no backend could open.
pub open spec fn unloaded(error: Seq<char>) -> Seq<char> {
    "Cloned but failed to load repo: "@ + error
}

/// Said of an answer that is to no question of the flow.
pub open spec fn unexpected(completion: Completion) -> Seq<char> {
    "unexpected background result: "@ + completion_text(completion)
}

/// What is on show after an advisory: it gives way to anything urgent.
pub open spec fn advised(
    shown: Option<(Severity, Seq<char>, u64)>,
    notice: Option<Seq<char>>,
    now: u64,
) -> Option<(Severity, Seq<char>, u64)> {
    match (notice, shown) {
        (Some(_), Some((Severity::Warning, _, _))) => shown,
        (Some(_), Some((Severity::Error, _, _))) => shown,
        (Some(text), _) => Some((Severity::Info, text, now)),
        (None, _) => shown,
    }
}

impl AppContext {
    // -----------------------------------------------------------------------
    // Cloning
    // -----------------------------------------------------------------------

    /// Whether `next` is this context with a clone handed over, and `flow` puts
    /// up a prompt that waits for it.
    pub open spec fn clone_started(
        self,
        dir: String,
        url: PrUrl,
        info: PrInfo,
        of: Flow,
        flow: ModalFlow,
        next: AppContext,
    ) -> bool {
        &&& self.raised(
            BackgroundWork::Routed {
                job: Job::CloneRepository { owner: url.owner, repo: url.repo, repos_dir: dir },
                step: PrStep { stage: Stage::Clone { url, info }, flow: of },
            },
            next,
        )
        &&& flow matches ModalFlow::Replace(Modal::PrWorktree(prompt))
        &&& prompt.is_of(of)
        &&& prompt.error is None
        &&& prompt.waiting matches Some(waiting)
        &&& waiting.frame == 0
        &&& waiting.message@ == clone_message(url, dir@)
    }

    /// Starts the clone and puts up a prompt that says so. It is a wait the user
    /// can walk away from.
    pub fn clone_into(&mut self, repos_dir: String, url: PrUrl, info: PrInfo, of: Flow) -> (flow:
        ModalFlow)
        ensures
            old(self).clone_started(repos_dir, url, info, of, flow, *final(self)),
    {
        let message = clone_text(&url, repos_dir.as_str());
        let prompt = PrWorktreeComponent::waiting(of.clone(), message);
        let job = Job::CloneRepository {
            owner: url.owner.clone(),
            repo: url.repo.clone(),
            repos_dir,
        };
        self.run_in_background(
            BackgroundWork::Routed { job, step: PrStep { stage: Stage::Clone { url, info }, flow: of } },
        );
        ModalFlow::Replace(Modal::PrWorktree(prompt))
    }

    /// What follows the decision to clone: the one directory there is, or a
    /// choice among several.
    pub open spec fn clone_decided(
        self,
        url: PrUrl,
        info: PrInfo,
        of: Flow,
        flow: ModalFlow,
        next: AppContext,
    ) -> bool {
        let dirs = self.args.repos_dirs@;
        if dirs.len() > 1 {
            &&& next == self
            &&& flow matches ModalFlow::Replace(Modal::SelectReposDir(picker))
            &&& picker.dirs@ == dirs
            &&& picker.selected_index == 0
            &&& picker.on_select == Some(CloneRequest { url, info, flow: of })
        } else if dirs.len() == 1 {
            self.clone_started(dirs[0], url, info, of, flow, next)
        } else {
            self.failed(NO_REPOS_DIR@, next) && flow is Close
        }
    }

    /// Cloning needs a destination: with several directories the user picks one.
    pub fn clone_flow(&mut self, url: PrUrl, info: PrInfo, of: Flow) -> (flow: ModalFlow)
        ensures
            old(self).clone_decided(url, info, of, flow, *final(self)),
    {
        let n: usize = self.args.repos_dirs.len();
        if n > 1 {
            let dirs = copy_all(&self.args.repos_dirs);
            return ModalFlow::Replace(
                Modal::SelectReposDir(
                    SelectDirectoryComponent::new(dirs, CloneRequest { url, info, flow: of }),
                ),
            );
        }
        if n == 0 {
            self.report(NO_REPOS_DIR);
            return ModalFlow::Close;
        }
        let dir = self.args.repos_dirs[0].clone();
        self.clone_into(dir, url, info, of)
    }

    // -----------------------------------------------------------------------
    // The space
    // -----------------------------------------------------------------------

    /// The quick work once the remotes of the selected repository are to be
    /// refreshed.
    pub open spec fn refreshed(self) -> Seq<Effect> {
        match self.repositories.selected() {
            Some(repo) => self.effects@.push(Effect::RefreshRemotes { repo }),
            None => self.effects@,
        }
    }

    /// Whether `flow` puts up a prompt for the branch of a pull request, and
    /// `effects` asks what it would start from.
    pub open spec fn branch_asked(
        self,
        url: PrUrl,
        info: PrInfo,
        flow: ModalFlow,
        effects: Seq<Effect>,
    ) -> bool {
        let branch = info.branch_name;
        &&& flow matches ModalFlow::Replace(Modal::CreateWorktree(prompt))
        &&& opt_text(prompt.warning) == (if info.is_merged {
            Some(MERGED_BRANCH_WARNING@)
        } else {
            None
        })
        &&& opt_text(prompt.pr_url) == Some(url_of(url.owner@, url.repo@, url.number))
        &&& match self.repositories.selected() {
            Some(repo) => {
                &&& prompt.is_for(
                    repo.name@,
                    repo.backend,
                    backends_on(self.repositories.repositories@, repo.id@).len() > 1,
                    branch@,
                )
                &&& effects == self.refreshed().push(Effect::ResolveBase { repo, name: branch })
            },
            None => {
                &&& prompt.is_for(Seq::empty(), Backend::Git, false, branch@)
                &&& effects == self.refreshed()
            },
        }
    }

    /// What the last step of the flow comes to: the space that is there already,
    /// a space asked for without a question, or a prompt for its name.
    pub open spec fn space_opened(
        self,
        url: PrUrl,
        info: PrInfo,
        auto: bool,
        notice: Option<Seq<char>>,
        flow: ModalFlow,
        next: AppContext,
    ) -> bool {
        let branch = info.branch_name;
        let address = url_of(url.owner@, url.repo@, url.number);
        &&& self.worktrees.shown(branch@, next.worktrees)
        &&& next == (AppContext {
            worktrees: next.worktrees,
            effects: next.effects,
            notify: next.notify,
            ..self
        })
        &&& if self.worktrees.can_show(branch@) {
            &&& flow is Close
            &&& next.effects@ == self.refreshed()
            &&& next.notify@ == advised(
                if info.is_merged {
                    Some((Severity::Info, MERGED_AND_SELECTED@, self.now))
                } else {
                    self.notify@
                },
                notice,
                self.now,
            )
        } else if auto {
            let mid = AppContext { worktrees: next.worktrees, effects: next.effects, ..self };
            &&& flow is Close
            &&& match self.repositories.selected() {
                Some(repo) => {
                    &&& next.effects@.len() == self.refreshed().len() + 1
                    &&& next.effects@.drop_last() == self.refreshed()
                    &&& next.effects@.last() matches Effect::CreateSpace(creation)
                    &&& is_creation(
                        creation,
                        repo,
                        branch@,
                        Some(address),
                        info.is_merged,
                        notice,
                    )
                    &&& next.notify == self.notify
                },
                None => next.effects@ == self.refreshed() && mid.failed(
                    NO_REPOSITORY@,
                    next,
                ),
            }
        } else {
            &&& self.branch_asked(url, info, flow, next.effects@)
            &&& next.notify@ == advised(self.notify@, notice, self.now)
        }
    }

    fn advise(&mut self, notice: Option<String>)
        ensures
            final(self).notify@ == advised(old(self).notify@, opt_text(notice), old(self).now),
            *final(self) == (AppContext { notify: final(self).notify, ..*old(self) }),
    {
        if let Some(text) = notice {
            let urgent = match self.notify.current() {
                Some(message) => !matches!(message.severity, Severity::Info),
                None => false,
            };
            if !urgent {
                self.notify.info(text.as_str(), self.now);
            }
        }
    }

    /// The last step of the flow. The branch may have been pushed since the last
    /// fetch, so the remotes are refreshed before anything is based on them.
    pub fn open_worktree_for_pr(
        &mut self,
        url: &PrUrl,
        info: PrInfo,
        auto: bool,
        notice: Option<String>,
    ) -> (flow: ModalFlow)
        requires
            old(self).wf(),
        ensures
            final(self).wf(),
            old(self).space_opened(*url, info, auto, opt_text(notice), flow, *final(self)),
    {
        if let Some(repo) = self.repositories.selected_repository() {
            let repo = repo.clone();
            self.effects.push(Effect::RefreshRemotes { repo });
        }
        assert(self.effects@ == old(self).refreshed());

        if self.worktrees.select_worktree_by_branch(info.branch_name.as_str()) {
            if info.is_merged {
                self.notify.info(MERGED_AND_SELECTED, self.now);
            }
            self.advise(notice);
            return ModalFlow::Close;
        }
        if auto {
            let ghost before = self.effects@;
            self.create_space(
                info.branch_name.as_str(),
                Some(url.to_url()),
                info.is_merged,
                notice,
            );
            proof {
                if old(self).repositories.selected() is Some {
                    assert(self.effects@.drop_last() =~= before);
                }
            }
            return ModalFlow::Close;
        }
        let warning = if info.is_merged {
            Some(MERGED_BRANCH_WARNING.to_owned())
        } else {
            None
        };
        let branch = info.branch_name.clone();
        let mut prompt = match self.repositories.selected_repository() {
            Some(repo) => {
                let repo = repo.clone();
                let colocated = self.repositories.backends_of(&repo.id).len() > 1;
                let prompt = CreateWorktreeComponent::new_with_branch(
                    repo.name.clone(),
                    repo.backend,
                    colocated,
                    branch,
                    warning,
                );
                self.effects.push(Effect::ResolveBase { repo, name: info.branch_name });
                prompt
            },
            None => CreateWorktreeComponent::new_with_branch(
                String::new(),
                Backend::Git,
                false,
                branch,
                warning,
            ),
        };
        prompt.pr_url = Some(url.to_url());
        self.advise(notice);
        ModalFlow::Replace(Modal::CreateWorktree(prompt))
    }

    // -----------------------------------------------------------------------
    // The answers
    // -----------------------------------------------------------------------

    /// What follows a lookup: the repository is here, or it has to be cloned
    /// first, with a question unless the flow asks none.
    pub open spec fn looked_up(
        self,
        url: PrUrl,
        info: PrInfo,
        of: Flow,
        flow: ModalFlow,
        next: AppContext,
    ) -> bool {
        exists|repositories: RepositoriesComponent|
            {
                let mid = self.with_repositories(repositories);
                &&& #[trigger] self.repositories.named(url.repo@, repositories)
                &&& if self.repositories.row_named(url.repo@) is Some {
                    mid.space_opened(url, info, of.auto, None, flow, next)
                } else if of.auto {
                    mid.clone_decided(url, info, of, flow, next)
                } else {
                    &&& next == mid
                    &&& flow matches ModalFlow::Replace(Modal::Confirm(dialog))
                    &&& is_clone_dialog(dialog, url, info, of)
                }
            }
    }

    /// The pull request is known: its repository is here, or has to be cloned.
    pub fn after_lookup(&mut self, url: PrUrl, info: PrInfo, of: Flow) -> (flow: ModalFlow)
        requires
            old(self).wf(),
        ensures
            final(self).wf(),
            old(self).looked_up(url, info, of, flow, *final(self)),
    {
        let here = self.repositories.select_repository_by_name(url.repo.as_str());
        assert(old(self).repositories.named(url.repo@, self.repositories));
        assert(*self == old(self).with_repositories(self.repositories));
        if here {
            return self.open_worktree_for_pr(&url, info, of.auto, None);
        }
        if of.auto {
            return self.clone_flow(url, info, of);
        }
        let mut label = concat("Repository '", url.repo.as_str());
        label.append("' not found. Clone from GitHub with git?");
        let remote = url.remote();
        ModalFlow::Replace(
            Modal::Confirm(
                ConfirmComponent::new(
                    "Clone Repository".to_owned(),
                    label,
                    remote,
                    Work::Clone { url, info, flow: of },
                ),
            ),
        )
    }

    /// What follows a clone: the repository joins the list and the flow goes on.
    pub open spec fn cloned(
        self,
        url: PrUrl,
        info: PrInfo,
        opened: Result<Vec<Repo>, String>,
        auto: bool,
        flow: ModalFlow,
        next: AppContext,
    ) -> bool {
        match opened {
            Ok(repos) => exists|joined: RepositoriesComponent, named: RepositoriesComponent|
                {
                    &&& joined.repositories@ == self.repositories.repositories@ + repos@
                    &&& joined == (RepositoriesComponent {
                        repositories: joined.repositories,
                        ..self.repositories
                    })
                    &&& #[trigger] joined.named(url.repo@, named)
                    &&& self.with_repositories(named).space_opened(
                        url,
                        info,
                        auto,
                        clone_notice(url, auto, self.args.repos_dirs@.len()),
                        flow,
                        next,
                    )
                },
            Err(error) => self.failed(unloaded(error@), next) && flow is Close,
        }
    }

    /// The clone landed: it joins the list, once for each backend that drives
    /// it, and the flow goes on. Where the user was asked nothing they are told
    /// now that the clone is git's.
    pub fn after_clone(
        &mut self,
        url: &PrUrl,
        info: PrInfo,
        opened: Result<Vec<Repo>, String>,
        auto: bool,
    ) -> (flow: ModalFlow)
        requires
            old(self).wf(),
        ensures
            final(self).wf(),
            old(self).cloned(*url, info, opened, auto, flow, *final(self)),
    {
        let repos = match opened {
            Ok(repos) => repos,
            Err(error) => {
                let text = concat("Cloned but failed to load repo: ", error.as_str());
                self.report(text.as_str());
                return ModalFlow::Close;
            },
        };
        let mut i: usize = 0;
        assert(self.repositories.repositories@ + repos@.take(0)
            =~= self.repositories.repositories@);
        while i < repos.len()
            invariant
                i <= repos@.len(),
                self.repositories.repositories@ == old(self).repositories.repositories@
                    + repos@.take(i as int),
                self.repositories == (RepositoriesComponent {
                    repositories: self.repositories.repositories,
                    ..old(self).repositories
                }),
                *self == old(self).with_repositories(self.repositories),
            decreases repos.len() - i,
        {
            self.repositories.add_repository(repos[i].clone());
            assert(self.repositories.repositories@ =~= old(self).repositories.repositories@
                + repos@.take(i + 1));
            i = i + 1;
        }
        assert(repos@.take(i as int) =~= repos@);
        let ghost joined = self.repositories;
        self.repositories.select_repository_by_name(url.repo.as_str());
        assert(joined.named(url.repo@, self.repositories));
        assert(*self == old(self).with_repositories(self.repositories));
        let notice = git_clone_notice(url, auto, &self.args.repos_dirs);
        self.open_worktree_for_pr(url, info, auto, notice)
    }

    /// What an answer does to the flow that waited for it.
    pub open spec fn resumed(
        self,
        step: PrStep,
        outcome: Result<Completion, String>,
        flow: ModalFlow,
        next: AppContext,
    ) -> bool {
        match (step.stage, outcome) {
            (Stage::Lookup { .. }, Err(error)) => {
                &&& next == self
                &&& flow matches ModalFlow::Replace(Modal::PrWorktree(prompt))
                &&& prompt.is_of(step.flow)
                &&& prompt.error == Some(error)
                &&& prompt.waiting is None
            },
            (Stage::Lookup { url }, Ok(Completion::PullRequest(info))) => self.looked_up(
                url,
                info,
                step.flow,
                flow,
                next,
            ),
            (Stage::Clone { .. }, Err(error)) => self.failed(error@, next) && flow is Close,
            (Stage::Clone { url, info }, Ok(Completion::Cloned { opened, .. })) => self.cloned(
                url,
                info,
                opened,
                step.flow.auto,
                flow,
                next,
            ),
            (_, Ok(other)) => self.failed(unexpected(other), next) && flow is Close,
        }
    }
}

/// Whether a dialog asks for a clone.
pub open spec fn is_clone_dialog(
    dialog: ConfirmComponent,
    url: PrUrl,
    info: PrInfo,
    of: Flow,
) -> bool {
    &&& dialog.title@ == "Clone Repository"@
    &&& dialog.label@ == clone_question(url.repo@)
    &&& dialog.detail@ == remote_of(url.owner@, url.repo@)
    &&& dialog.losses@.len() == 0
    &&& dialog.removals@.len() == 0
    &&& dialog.aftermath is None
    &&& dialog.retained is None
    &&& dialog.gate == Gate::Enter
    &&& dialog.on_confirm == Some(Work::Clone { url, info, flow: of })
}

/// Carries on a flow whose job has finished. A failed lookup returns to the
/// prompt, with the reason beneath the field; a failed clone has no prompt to
/// return to.
pub fn resume_pr_flow(
    ctx: &mut AppContext,
    step: PrStep,
    outcome: Result<Completion, String>,
) -> (flow: ModalFlow)
    requires
        old(ctx).wf(),
    ensures
        final(ctx).wf(),
        old(ctx).resumed(step, outcome, flow, *final(ctx)),
{
    match (step.stage, outcome) {
        (Stage::Lookup { .. }, Err(error)) => ModalFlow::Replace(
            Modal::PrWorktree(PrWorktreeComponent::reopened(step.flow, error)),
        ),
        (Stage::Lookup { url }, Ok(Completion::PullRequest(info))) => ctx.after_lookup(
            url,
            info,
            step.flow,
        ),
        (Stage::Clone { .. }, Err(error)) => {
            ctx.report(error.as_str());
            ModalFlow::Close
        },
        (Stage::Clone { url, info }, Ok(Completion::Cloned { opened, .. })) => ctx.after_clone(
            &url,
            info,
            opened,
            step.flow.auto,
        ),
        (_, Ok(other)) => {
            let text = concat("unexpected background result: ", other.text().as_str());
            ctx.report(text.as_str());
            ModalFlow::Close
        },
    }
}

} // verus!
