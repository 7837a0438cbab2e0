//! What holds of the popups' work on what outlives them: creating and deleting a
//! space, and the steps of the pull request flow.

use vstd::prelude::*;

use crate::components::confirm::{Gate, Work};
use crate::components::context::{
    AppContext, BackgroundWork, Creation, Effect, Modal, ModalFlow,
};
use crate::components::list::{first_where, lemma_first_where};
use crate::components::notify::Severity;
use crate::components::pr_worktree::{Flow, PrStep, Stage};
use crate::components::repositories::{is_named, is_opened, repo_rows, RepositoriesComponent};
use crate::components::select_directory::CloneRequest;
use crate::components::worktrees::laws::{
    law_a_branch_is_gone_to, law_a_deleted_space_takes_one_row,
    law_a_deletion_is_of_the_selected_row, law_a_space_is_deleted_through_its_owner,
};
use crate::components::worktrees::rows_of;
use crate::github::{opt_text, PrInfo, PrUrl};
use crate::jobs::{Completion, Job};
use crate::text::decimal_of;
use crate::vcs::{Backend, Repo, Space};

verus! {

// ---------------------------------------------------------------------------
// Deleting
// ---------------------------------------------------------------------------

/// Confirming a deletion asks for the deletion of the space the user is on, through
/// its own repository, and of nothing else; where no row is selected nothing is
/// asked for, and neither is it where no repository owns the space.
pub proof fn law_a_deletion_names_the_selected_space(ctx: AppContext, next: AppContext)
    requires
        ctx.deletion_wanted(next),
    ensures
        next.worktrees == ctx.worktrees,
        next.repositories == ctx.repositories,
        next.background == ctx.background,
        next.effects@ != ctx.effects@ ==> {
            &&& next.effects@.len() == ctx.effects@.len() + 1
            &&& next.effects@.drop_last() == ctx.effects@
            &&& next.effects@.last() matches Effect::DeleteSpace(deletion)
            &&& ctx.worktrees.selected() matches Some(entry)
            &&& deletion.space.path@ == entry.space.path@
            &&& deletion.repo.id@ == deletion.space.repo@
            &&& deletion.repo.backend == deletion.space.backend
        },
        ctx.worktrees.selected() is None ==> next.effects@ == ctx.effects@,
        ctx.worktrees.selected() is Some && next.effects@ == ctx.effects@ ==> next.notify@ is Some
            && (next.notify@->0).0 == Severity::Error,
{
    law_a_deletion_is_of_the_selected_row(ctx.worktrees);
    if let Some(space) = ctx.worktrees.doomed() {
        law_a_space_is_deleted_through_its_owner(ctx.repositories, space);
        if ctx.repositories.owner_of(space) is Some {
            assert(next.effects@.drop_last() =~= ctx.effects@);
        }
    }
}

/// A space loses its row only where it is gone; then one row goes, one at its
/// path, and every other stays. Where it could not be deleted the reason is shown.
pub proof fn law_a_row_goes_only_with_its_space(
    ctx: AppContext,
    path: Seq<char>,
    outcome: Result<(), String>,
    next: AppContext,
)
    requires
        ctx.deleted(path, outcome, next),
    ensures
        outcome matches Err(error) ==> next.worktrees == ctx.worktrees && next.notify@ == Some(
            (Severity::Error, error@, ctx.now),
        ),
        outcome is Ok && (exists|x: int|
            0 <= x < ctx.worktrees.spaces@.len() && (
            #[trigger] ctx.worktrees.spaces@[x]).space.path@ == path) ==> exists|x: int|
            0 <= x < ctx.worktrees.spaces@.len() && ctx.worktrees.spaces@[x].space.path@ == path
                && next.worktrees.spaces@ == #[trigger] ctx.worktrees.spaces@.remove(x),
        outcome is Ok ==> next.notify@ is None,
        next.repositories == ctx.repositories,
        next.effects == ctx.effects,
{
    law_a_deleted_space_takes_one_row(ctx.worktrees.spaces@, path);
}

// ---------------------------------------------------------------------------
// Creating
// ---------------------------------------------------------------------------

/// Asking for a space asks for exactly one, in the given repository and under the
/// given name; without a repository the user is told, and nothing is asked for.
pub proof fn law_a_space_is_asked_for_once(
    ctx: AppContext,
    repo: Option<Repo>,
    name: Seq<char>,
    pr_url: Option<Seq<char>>,
    merged: bool,
    notice: Option<Seq<char>>,
    next: AppContext,
)
    requires
        ctx.wanted(repo, name, pr_url, merged, notice, next),
    ensures
        repo matches Some(repo) ==> {
            &&& next.effects@.len() == ctx.effects@.len() + 1
            &&& next.effects@.drop_last() == ctx.effects@
            &&& next.effects@.last() matches Effect::CreateSpace(creation)
            &&& creation.repo == repo
            &&& creation.name@ == name
            &&& opt_text(creation.pr_url) == pr_url
            &&& creation.merged == merged
            &&& opt_text(creation.notice) == notice
            &&& next.notify == ctx.notify
        },
        repo is None ==> next.effects == ctx.effects && next.notify@ == Some(
            (Severity::Error, "no repository is selected"@, ctx.now),
        ),
        next.worktrees == ctx.worktrees,
        next.background == ctx.background,
{
    if repo is Some {
        assert(next.effects@.drop_last() =~= ctx.effects@);
    }
}

/// The repository a space is created in is the one the user picked, as the wanted
/// backend opened it.
pub proof fn law_a_space_is_created_in_the_selected_repository(
    list: RepositoriesComponent,
    backend: Backend,
)
    ensures
        list.selected_through(backend) matches Some(repo) ==> list.selected() is Some && repo.id@
            == list.selected()->0.id@ && repo.backend == backend && list.repositories@.contains(
            repo,
        ),
        list.selected() matches Some(picked) ==> (list.selected_through(backend) is Some
            <==> exists|k: int|
            0 <= k < list.repositories@.len() && (#[trigger] list.repositories@[k]).id@ == picked.id@
                && list.repositories@[k].backend == backend),
{
    let all = list.repositories@;
    if let Some(picked) = list.selected() {
        let test = is_opened(all, picked.id@, backend);
        lemma_first_where(all.len(), test);
        if let Some(k) = first_where(all.len(), test) {
            assert(test(k));
            assert(all[k] == list.selected_through(backend)->0);
        }
        if exists|k: int|
            0 <= k < all.len() && (#[trigger] all[k]).id@ == picked.id@ && all[k].backend
                == backend {
            let k = choose|k: int|
                0 <= k < all.len() && (#[trigger] all[k]).id@ == picked.id@ && all[k].backend
                    == backend;
            assert(test(k));
        }
    }
}

/// A space that was created gets a row under its repository, its pull request is
/// remembered and written down, and its hooks are started where it has any.
pub proof fn law_a_created_space_is_taken_in(
    ctx: AppContext,
    creation: Creation,
    space: Space,
    next: AppContext,
)
    requires
        ctx.welcomed(creation, space, next),
    ensures
        next.worktrees.spaces@.len() == ctx.worktrees.spaces@.len() + 1,
        next.worktrees.spaces@.drop_last() == ctx.worktrees.spaces@,
        next.worktrees.spaces@.last().space == space,
        next.worktrees.spaces@.last().repo_name == creation.repo.name,
        next.worktrees.spaces@.last().repo_path == creation.repo.path,
        creation.pr_url matches Some(url) ==> crate::space_meta::pr_at(
            next.meta.entries@,
            space.path@,
        ) == Some(url@) && next.effects@ == ctx.effects@.push(Effect::SaveMeta),
        creation.pr_url is None ==> next.meta == ctx.meta && next.effects == ctx.effects,
        next.background@ == ctx.background@ || (next.background@.len() == ctx.background@.len() + 1
            && next.background@.drop_last() == ctx.background@ && (
        next.background@.last() matches BackgroundWork::Hooks(plan) && plan.target.space_path
            == space.path && plan.target.space_name == space.name && plan.target.repo_path
            == creation.repo.path && plan.target.repo_name == creation.repo.name
            && plan.target.backend == space.backend && plan.copies@.len() + plan.commands@.len()
            > 0)),
        !ctx.args.hooks.enabled ==> next.background@ == ctx.background@,
        ctx.args.hooks.enabled && ctx.args.hooks.config.hooks.copy@.len()
            + ctx.args.hooks.config.hooks.run@.len() > 0 ==> next.background@.len()
            == ctx.background@.len() + 1,
        creation.merged ==> next.notify@ is Some && (next.notify@->0).0 == Severity::Warning,
        !creation.merged && creation.notice is None ==> next.notify@ is None,
        next.repositories == ctx.repositories,
{
    assert(next.worktrees.spaces@.drop_last() =~= ctx.worktrees.spaces@);
    let target = crate::components::context::target_of(creation.repo, space);
    let plan = choose|plan: crate::hooks::HookPlan|
        {
            &&& #[trigger] ctx.args.hooks.planned(target, plan)
            &&& next.background@ == (if plan.copies@.len() == 0 && plan.commands@.len() == 0 {
                ctx.background@
            } else {
                ctx.background@.push(BackgroundWork::Hooks(plan))
            })
        };
    crate::hooks::law_global_hooks_come_first(
        ctx.args.hooks.config,
        target.repo_name@,
        target.repo_path@,
    );
    if plan.copies@.len() + plan.commands@.len() > 0 {
        assert(next.background@.drop_last() =~= ctx.background@);
    }
}

// ---------------------------------------------------------------------------
// The pull request flow
// ---------------------------------------------------------------------------

/// A clone is started at once only where there is exactly one directory it can go
/// to, and it goes there. With several directories the user picks among exactly
/// those, and nothing is started; with none they are told.
pub proof fn law_a_clone_starts_only_where_it_can_go_one_way(
    ctx: AppContext,
    url: PrUrl,
    info: PrInfo,
    of: Flow,
    flow: ModalFlow,
    next: AppContext,
)
    requires
        ctx.clone_decided(url, info, of, flow, next),
    ensures
        next.background@ != ctx.background@ ==> ctx.args.repos_dirs@.len() == 1,
        ctx.args.repos_dirs@.len() >= 2 ==> {
            &&& next == ctx
            &&& flow matches ModalFlow::Replace(Modal::SelectReposDir(picker))
            &&& picker.dirs@ == ctx.args.repos_dirs@
            &&& picker.selected_index == 0
            &&& picker.on_select == Some(CloneRequest { url, info, flow: of })
        },
        ctx.args.repos_dirs@.len() == 1 ==> {
            &&& next.background@ == ctx.background@.push(
                BackgroundWork::Routed {
                    job: Job::CloneRepository {
                        owner: url.owner,
                        repo: url.repo,
                        repos_dir: ctx.args.repos_dirs@[0],
                    },
                    step: PrStep { stage: Stage::Clone { url, info }, flow: of },
                },
            )
            &&& next.notify == ctx.notify
            &&& next.effects == ctx.effects
            &&& flow matches ModalFlow::Replace(Modal::PrWorktree(prompt))
            &&& prompt.waiting is Some
            &&& prompt.error is None
            &&& prompt.input == of.typed
        },
        ctx.args.repos_dirs@.len() == 0 ==> {
            &&& flow is Close
            &&& next.notify@ == Some(
                (Severity::Error, "no repos directory is configured"@, ctx.now),
            )
            &&& next.background == ctx.background
        },
        next.worktrees == ctx.worktrees,
        next.repositories == ctx.repositories,
{
}

/// A clone goes into the directory that was picked, and the prompt says so while
/// it waits.
pub proof fn law_a_clone_goes_where_it_was_sent(
    ctx: AppContext,
    dir: String,
    url: PrUrl,
    info: PrInfo,
    of: Flow,
    flow: ModalFlow,
    next: AppContext,
)
    requires
        ctx.clone_started(dir, url, info, of, flow, next),
    ensures
        next.background@ == ctx.background@.push(
            BackgroundWork::Routed {
                job: Job::CloneRepository { owner: url.owner, repo: url.repo, repos_dir: dir },
                step: PrStep { stage: Stage::Clone { url, info }, flow: of },
            },
        ),
        next == (AppContext { background: next.background, ..ctx }),
        flow matches ModalFlow::Replace(Modal::PrWorktree(prompt)) && prompt.waiting is Some
            && prompt.waiting->0.message@ == "Cloning "@ + url.owner@ + "/"@ + url.repo@ + " into "@
            + dir@,
{
}

/// Whether a repository of this name is listed.
pub open spec fn is_listed(list: RepositoriesComponent, name: Seq<char>) -> bool {
    exists|i: int|
        0 <= i < repo_rows(list.repositories@, Seq::empty()).len()
            && #[trigger] list.repositories@[repo_rows(list.repositories@, Seq::empty())[i]].name@
            == name
}

/// A repository is gone to by its name: the filter is cleared, and where one of
/// that name is listed the user is on it; where none is they stay where they were.
pub proof fn law_a_repository_is_gone_to(
    list: RepositoriesComponent,
    name: Seq<char>,
    next: RepositoriesComponent,
)
    requires
        list.named(name, next),
        repo_rows(list.repositories@, Seq::empty()).len() <= usize::MAX,
    ensures
        list.row_named(name) is Some <==> is_listed(list, name),
        is_listed(list, name) ==> (next.selected() matches Some(repo) && repo.name@ == name),
        !is_listed(list, name) ==> next.selected_index == list.selected_index,
        next.filter.value@.len() == 0,
        next.repositories == list.repositories,
        next.focus == list.focus,
{
    let rows = repo_rows(list.repositories@, Seq::empty());
    let test = is_named(list.repositories@, rows, name);
    lemma_first_where(rows.len(), test);
    if let Some(i) = list.row_named(name) {
        assert(test(i));
        assert(list.repositories@[rows[i]].name@ == name);
        assert(next.filter.value@ =~= Seq::<char>::empty());
    }
    if is_listed(list, name) {
        let i = choose|i: int|
            0 <= i < rows.len() && #[trigger] list.repositories@[rows[i]].name@ == name;
        assert(test(i));
    }
}

/// Once a pull request is known, its repository is cloned only where it is not
/// listed; without leave to do so unasked, the user is asked first, and nothing is
/// started.
pub proof fn law_a_missing_repository_is_cloned_after_a_question(
    ctx: AppContext,
    url: PrUrl,
    info: PrInfo,
    of: Flow,
    flow: ModalFlow,
    next: AppContext,
)
    requires
        ctx.looked_up(url, info, of, flow, next),
        repo_rows(ctx.repositories.repositories@, Seq::empty()).len() <= usize::MAX,
    ensures
        is_listed(ctx.repositories, url.repo@) ==> next.background == ctx.background,
        !is_listed(ctx.repositories, url.repo@) && !of.auto ==> {
            &&& next.background == ctx.background
            &&& next.effects == ctx.effects
            &&& flow matches ModalFlow::Replace(Modal::Confirm(dialog))
            &&& dialog.on_confirm == Some(Work::Clone { url, info, flow: of })
            &&& dialog.gate == Gate::Enter
            &&& dialog.detail@ == "git@github.com:"@ + url.owner@ + "/"@ + url.repo@ + ".git"@
        },
        !is_listed(ctx.repositories, url.repo@) && of.auto && ctx.args.repos_dirs@.len() == 1
            ==> next.background@ == ctx.background@.push(
            BackgroundWork::Routed {
                job: Job::CloneRepository {
                    owner: url.owner,
                    repo: url.repo,
                    repos_dir: ctx.args.repos_dirs@[0],
                },
                step: PrStep { stage: Stage::Clone { url, info }, flow: of },
            },
        ),
        !is_listed(ctx.repositories, url.repo@) && of.auto && ctx.args.repos_dirs@.len() >= 2
            ==> next.background == ctx.background && (flow matches ModalFlow::Replace(
            Modal::SelectReposDir(picker),
        ) && picker.dirs@ == ctx.args.repos_dirs@),
{
    let repositories = choose|repositories: RepositoriesComponent|
        {
            let mid = ctx.with_repositories(repositories);
            &&& #[trigger] ctx.repositories.named(url.repo@, repositories)
            &&& if ctx.repositories.row_named(url.repo@) is Some {
                mid.space_opened(url, info, of.auto, None, flow, next)
            } else if of.auto {
                mid.clone_decided(url, info, of, flow, next)
            } else {
                &&& next == mid
                &&& flow matches ModalFlow::Replace(Modal::Confirm(dialog))
                &&& crate::components::pr_flow::is_clone_dialog(dialog, url, info, of)
            }
        };
    law_a_repository_is_gone_to(ctx.repositories, url.repo@, repositories);
}

/// The last step of the flow opens the space of the branch where there is one, and
/// asks for none; else it asks for one of that name, at once or through a prompt
/// that has the name typed in already.
pub proof fn law_a_pull_request_opens_its_space(
    ctx: AppContext,
    url: PrUrl,
    info: PrInfo,
    auto: bool,
    notice: Option<Seq<char>>,
    flow: ModalFlow,
    next: AppContext,
)
    requires
        ctx.space_opened(url, info, auto, notice, flow, next),
        rows_of(ctx.worktrees.spaces@, Seq::empty(), ctx.worktrees.repo_scope).len() <= usize::MAX,
    ensures
        ({
            let here = exists|x: int|
                0 <= x < ctx.worktrees.spaces@.len() && (
                #[trigger] ctx.worktrees.spaces@[x]).space.name@ == info.branch_name@
                    && crate::components::worktrees::is_in_scope(
                    ctx.worktrees.spaces@[x],
                    ctx.worktrees.repo_scope,
                );
            &&& here ==> flow is Close
            &&& here ==> (next.worktrees.selected() matches Some(entry) && entry.space.name@
                == info.branch_name@)
            &&& here ==> forall|i: int|
                ctx.effects@.len() <= i < next.effects@.len() ==> (#[trigger] next.effects@[i])
                    is RefreshRemotes
            &&& !here && auto ==> flow is Close
            &&& !here && auto && ctx.repositories.selected() is Some ==> {
                &&& next.effects@.len() > ctx.effects@.len()
                &&& next.effects@.last() matches Effect::CreateSpace(creation)
                &&& creation.repo == ctx.repositories.selected()->0
                &&& creation.name@ == info.branch_name@
                &&& creation.merged == info.is_merged
                &&& opt_text(creation.pr_url) == Some(
                    "https://github.com/"@ + url.owner@ + "/"@ + url.repo@ + "/pull/"@ + decimal_of(
                        url.number as nat,
                    ),
                )
            }
            &&& !here && !auto ==> {
                &&& flow matches ModalFlow::Replace(Modal::CreateWorktree(prompt))
                &&& prompt.new_worktree_name@ == info.branch_name@
                &&& opt_text(prompt.pr_url) == Some(
                    "https://github.com/"@ + url.owner@ + "/"@ + url.repo@ + "/pull/"@ + decimal_of(
                        url.number as nat,
                    ),
                )
                &&& prompt.warning is Some <==> info.is_merged
            }
        }),
        next.background == ctx.background,
        next.repositories == ctx.repositories,
        ctx.repositories.selected() matches Some(repo) ==> next.effects@.len()
            > ctx.effects@.len() && next.effects@[ctx.effects@.len() as int] == (
        Effect::RefreshRemotes { repo }),
{
    law_a_branch_is_gone_to(ctx.worktrees, info.branch_name@, next.worktrees);
    crate::github::law_an_address_is_spelled_out(url.owner@, url.repo@, url.number);
    if !ctx.worktrees.can_show(info.branch_name@) && auto && ctx.repositories.selected() is Some {
        assert(next.effects@.drop_last()[ctx.effects@.len() as int]
            == next.effects@[ctx.effects@.len() as int]);
    }
}

/// A lookup that failed brings the prompt back with what was typed and the reason;
/// a clone that failed says why and ends the flow. Neither starts anything.
pub proof fn law_a_failed_step_says_why(
    ctx: AppContext,
    step: PrStep,
    error: String,
    flow: ModalFlow,
    next: AppContext,
)
    requires
        ctx.resumed(step, Err::<Completion, String>(error), flow, next),
    ensures
        step.stage is Lookup ==> next == ctx && (flow matches ModalFlow::Replace(
            Modal::PrWorktree(prompt),
        ) && prompt.input == step.flow.typed && prompt.error == Some(error) && prompt.waiting
            is None && prompt.auto_clone == step.flow.auto),
        step.stage is Clone ==> flow is Close && next.notify@ == Some(
            (Severity::Error, error@, ctx.now),
        ),
        next.background == ctx.background,
        next.effects == ctx.effects,
        next.repositories == ctx.repositories,
        next.worktrees == ctx.worktrees,
{
}

/// A repository that was cloned joins the list, once for each backend that opened
/// it, before its space is opened; one that no backend could open does not.
pub proof fn law_a_clone_joins_the_list(
    ctx: AppContext,
    url: PrUrl,
    info: PrInfo,
    opened: Result<Vec<Repo>, String>,
    auto: bool,
    flow: ModalFlow,
    next: AppContext,
)
    requires
        ctx.cloned(url, info, opened, auto, flow, next),
    ensures
        opened matches Ok(repos) ==> next.repositories.repositories@
            == ctx.repositories.repositories@ + repos@,
        opened matches Err(error) ==> next.repositories == ctx.repositories && flow is Close
            && next.notify@ == Some(
            (Severity::Error, "Cloned but failed to load repo: "@ + error@, ctx.now),
        ),
        next.background == ctx.background,
{
    if let Ok(repos) = opened {
        let (joined, named) = choose|joined: RepositoriesComponent, named: RepositoriesComponent|
            {
                &&& joined.repositories@ == ctx.repositories.repositories@ + repos@
                &&& joined == (RepositoriesComponent {
                    repositories: joined.repositories,
                    ..ctx.repositories
                })
                &&& #[trigger] joined.named(url.repo@, named)
                &&& ctx.with_repositories(named).space_opened(
                    url,
                    info,
                    auto,
                    crate::components::pr_worktree::clone_notice(
                        url,
                        auto,
                        ctx.args.repos_dirs@.len(),
                    ),
                    flow,
                    next,
                )
            };
        assert(next.repositories == named);
    }
}

} // verus!
