//! What a key comes to in each popup: what is asked for, and what follows it.

use vstd::prelude::*;

use crate::components::confirm::{ConfirmComponent, Gate, Work};
use crate::components::context::{
    AppContext, BackgroundWork, Creation, Effect, Modal, ModalFlow,
};
use crate::components::create_worktree::CreateWorktreeComponent;
use crate::components::help::HelpComponent;
use crate::components::laws::{
    is_listed, law_a_clone_joins_the_list, law_a_clone_starts_only_where_it_can_go_one_way,
    law_a_missing_repository_is_cloned_after_a_question, law_a_pull_request_opens_its_space,
    law_a_repository_is_gone_to,
};
use crate::components::notify::Severity;
use crate::components::pr_flow::{advised, is_clone_dialog};
use crate::components::pr_worktree::{Flow, PrStep, PrWorktreeComponent, Stage};
use crate::components::repositories::{
    backends_on, repo_rows, repositories_table, RepositoriesComponent, RepositoriesModal,
};
use crate::components::select_directory::{select_directory_table, SelectDirectoryComponent};
use crate::components::worktrees::laws::law_a_deletion_is_of_the_selected_row;
use crate::components::worktrees::rows_of;
use crate::components::Action;
use crate::github::{opt_text, parsed, PrInfo, PrUrl, PrUrlError};
use crate::jobs::{completion_text, Completion, Job};
use crate::keymap::InputMode;
use crate::text::debug_of;
use crate::vcs::{Repo, Space};

verus! {

// ---------------------------------------------------------------------------
// The repository picker
// ---------------------------------------------------------------------------

/// A chosen repository is followed by the prompt for a name in it: through the
/// backend it is offered by, with the other one to switch to where there is one.
pub proof fn law_a_chosen_repository_is_named_in_next(
    picker: RepositoriesModal,
    ctx: AppContext,
    flow: ModalFlow,
    left: RepositoriesModal,
    next: AppContext,
)
    requires
        picker.handled(Action::Select, ctx, flow, left, next),
    ensures
        next == ctx,
        flow matches ModalFlow::Replace(Modal::CreateWorktree(prompt)) && {
            &&& prompt.new_worktree_name@.len() == 0
            &&& prompt.pr_url is None
            &&& prompt.warning is None
            &&& ctx.repositories.selected() matches Some(repo) ==> {
                &&& prompt.repo_name@ == repo.name@
                &&& prompt.backend == repo.backend
                &&& prompt.colocated <==> backends_on(
                    ctx.repositories.repositories@,
                    repo.id@,
                ).len() >= 2
            }
        },
{
}

/// The keys of the picker close it, go to its filter and back, or move in its list;
/// none of them starts anything.
pub proof fn law_the_picker_only_picks(
    picker: RepositoriesModal,
    action: Action,
    ctx: AppContext,
    flow: ModalFlow,
    left: RepositoriesModal,
    next: AppContext,
)
    requires
        picker.handled(action, ctx, flow, left, next),
    ensures
        next.effects == ctx.effects && next.background == ctx.background && next.worktrees
            == ctx.worktrees && next.repositories.repositories == ctx.repositories.repositories,
        flow is Close <==> action is ClosePopup,
        action is EnterInsertMode ==> left.mode == InputMode::Insert
            && next.repositories.focus is Filter,
        action is ExitInsertMode ==> left.mode == InputMode::Normal
            && next.repositories.focus is List,
        action is FocusNext ==> (left.mode == InputMode::Insert <==> next.repositories.focus
            is Filter) && (next.repositories.focus is Filter <==> ctx.repositories.focus is List),
{
}

// ---------------------------------------------------------------------------
// The prompt for a name
// ---------------------------------------------------------------------------

/// Enter asks for one space, of the name that was typed, in the repository the user
/// picked, through the backend the prompt is on; without a name it asks for none.
pub proof fn law_a_named_space_is_asked_for(
    prompt: CreateWorktreeComponent,
    ctx: AppContext,
    flow: ModalFlow,
    left: CreateWorktreeComponent,
    next: AppContext,
)
    requires
        prompt.handled(Action::Select, ctx, flow, left, next),
    ensures
        flow is Close,
        prompt.new_worktree_name@.len() == 0 ==> next == ctx,
        prompt.new_worktree_name@.len() > 0 ==> match ctx.repositories.selected_through(
            prompt.backend,
        ) {
            Some(repo) => {
                &&& next.effects@.len() == ctx.effects@.len() + 1
                &&& next.effects@.last() matches Effect::CreateSpace(creation)
                &&& creation.repo == repo
                &&& creation.name@ == prompt.new_worktree_name@
                &&& opt_text(creation.pr_url) == opt_text(prompt.pr_url)
                &&& !creation.merged
                &&& creation.notice is None
            },
            None => next.effects == ctx.effects && next.notify@ == Some(
                (Severity::Error, "no repository is selected"@, ctx.now),
            ),
        },
        next.background == ctx.background,
{
}

/// Every change of the name or the backend asks anew what the name would start
/// from, and what was known of that is forgotten until it is answered; a prompt
/// without a name asks nothing.
pub proof fn law_a_renamed_space_asks_for_its_base_again(
    prompt: CreateWorktreeComponent,
    action: Action,
    ctx: AppContext,
    flow: ModalFlow,
    left: CreateWorktreeComponent,
    next: AppContext,
)
    requires
        prompt.handled(action, ctx, flow, left, next),
        action is InsertChar || action is DeleteChar || (action is FocusNext && prompt.colocated),
    ensures
        flow is Consumed,
        left.base_branch_hint is None,
        left.new_worktree_name@.len() == 0 ==> next == ctx,
        left.new_worktree_name@.len() > 0 ==> match ctx.repositories.selected_through(
            left.backend,
        ) {
            Some(repo) => next.effects@ == ctx.effects@.push(
                Effect::ResolveBase { repo, name: left.new_worktree_name },
            ),
            None => next == ctx,
        },
        next.background == ctx.background,
{
}

// ---------------------------------------------------------------------------
// The prompt for a pull request
// ---------------------------------------------------------------------------

/// Enter looks up the pull request that was typed, and nothing where the text names
/// none; leaving while that is out gives it up.
pub proof fn law_a_typed_pull_request_is_looked_up(
    prompt: PrWorktreeComponent,
    action: Action,
    ctx: AppContext,
    flow: ModalFlow,
    left: Modal,
    next: AppContext,
)
    requires
        Modal::PrWorktree(prompt).handled(action, ctx, flow, left, next),
    ensures
        left is PrWorktree,
        action is Select && prompt.waiting is None && parsed(prompt.input@) is Ok ==> {
            &&& flow is Consumed
            &&& next.background@.len() == ctx.background@.len() + 1
            &&& next.background@.last() matches BackgroundWork::Routed { job, step }
            &&& job matches Job::FetchPullRequest { url }
            &&& parsed(prompt.input@) == Ok::<(Seq<char>, Seq<char>, u64), PrUrlError>(
                (url.owner@, url.repo@, url.number),
            )
            &&& step.stage == (Stage::Lookup { url })
            &&& step.flow.typed == prompt.input
            &&& step.flow.auto == prompt.auto_clone
            &&& (left->PrWorktree_0).waiting is Some
        },
        action is Select && (prompt.waiting is Some || parsed(prompt.input@) is Err) ==> next
            == ctx && flow is Consumed,
        (action is ClosePopup || action is ExitInsertMode) && prompt.waiting is Some ==> flow
            is Close && next.background@ == ctx.background@.push(BackgroundWork::Abandon),
        (action is ClosePopup || action is ExitInsertMode) && prompt.waiting is None ==> flow
            is Close && next == ctx,
        !(action is Select || action is ClosePopup || action is ExitInsertMode) ==> next == ctx,
        next.effects == ctx.effects,
{
}

// ---------------------------------------------------------------------------
// The directory picker, the question and the help
// ---------------------------------------------------------------------------

/// Enter clones what the picker was opened for into the directory the cursor is on;
/// no other key starts a clone.
pub proof fn law_a_picked_directory_is_cloned_into(
    picker: SelectDirectoryComponent,
    action: Action,
    ctx: AppContext,
    flow: ModalFlow,
    left: Modal,
    next: AppContext,
)
    requires
        picker.wf(),
        Modal::SelectReposDir(picker).handled(action, ctx, flow, left, next),
    ensures
        action is Select ==> (picker.on_select matches Some(request) ==> next.background@
            == ctx.background@.push(
            BackgroundWork::Routed {
                job: Job::CloneRepository {
                    owner: request.url.owner,
                    repo: request.url.repo,
                    repos_dir: picker.dirs@[picker.selected_index as int],
                },
                step: PrStep {
                    stage: Stage::Clone { url: request.url, info: request.info },
                    flow: request.flow,
                },
            },
        ) && flow is Replace),
        !(action is Select) || picker.on_select is None ==> next == ctx && !(flow is Replace),
        action is ClosePopup || action is ExitInsertMode ==> flow is Close,
        next.effects == ctx.effects,
{
}

/// A clone that was asked about is decided on only with Enter: then it goes the one
/// way there is, or the user is asked where.
pub proof fn law_a_confirmed_clone_is_decided_on(
    dialog: ConfirmComponent,
    url: PrUrl,
    info: PrInfo,
    of: Flow,
    action: Action,
    ctx: AppContext,
    flow: ModalFlow,
    left: Modal,
    next: AppContext,
)
    requires
        Modal::Confirm(dialog).handled(action, ctx, flow, left, next),
        dialog.on_confirm == Some(Work::Clone { url, info, flow: of }),
        dialog.gate == Gate::Enter,
    ensures
        next.background@ != ctx.background@ ==> action is Select && ctx.args.repos_dirs@.len()
            == 1,
        flow is Replace ==> action is Select,
        action is Select && ctx.args.repos_dirs@.len() == 1 ==> next.background@
            == ctx.background@.push(
            BackgroundWork::Routed {
                job: Job::CloneRepository {
                    owner: url.owner,
                    repo: url.repo,
                    repos_dir: ctx.args.repos_dirs@[0],
                },
                step: PrStep { stage: Stage::Clone { url, info }, flow: of },
            },
        ),
        action is Select && ctx.args.repos_dirs@.len() >= 2 ==> next == ctx && (
        flow matches ModalFlow::Replace(Modal::SelectReposDir(picker)) && picker.dirs@
            == ctx.args.repos_dirs@),
        action is ClosePopup || action is ExitInsertMode ==> flow is Close && next == ctx,
{
    if action is Select {
        law_a_clone_starts_only_where_it_can_go_one_way(ctx, url, info, of, flow, next);
    }
}

/// Help is closed by Esc and by asking for it again, and changes nothing beneath it.
pub proof fn law_help_closes_and_touches_nothing(
    help: HelpComponent,
    action: Action,
    ctx: AppContext,
    flow: ModalFlow,
    left: Modal,
    next: AppContext,
)
    requires
        Modal::Help(help).handled(action, ctx, flow, left, next),
    ensures
        next == ctx,
        flow is Close <==> action is ClosePopup || action is ExitInsertMode || action is ShowHelp,
        !(flow is Replace),
        left matches Modal::Help(after) && after.entries == help.entries,
{
}

/// Text is typed into a prompt, and into the picker while its filter is open; in
/// every other popup a letter is a command.
pub proof fn law_where_text_is_typed(modal: Modal)
    ensures
        modal is CreateWorktree || modal is PrWorktree ==> modal.mode() == InputMode::Insert,
        modal is Help || modal is SelectReposDir ==> modal.mode() == InputMode::Normal,
        modal matches Modal::Repositories(picker) ==> modal.mode() == picker.mode,
{
}

// ---------------------------------------------------------------------------
// What follows an answer
// ---------------------------------------------------------------------------

/// A looked-up pull request whose repository is not listed is cloned or asked about;
/// a clone that came back joins the list; any other answer is told as unexpected,
/// and ends the flow.
pub proof fn law_an_answer_carries_the_flow_on(
    ctx: AppContext,
    step: PrStep,
    completion: Completion,
    flow: ModalFlow,
    next: AppContext,
)
    requires
        ctx.resumed(step, Ok::<Completion, String>(completion), flow, next),
        repo_rows(ctx.repositories.repositories@, Seq::empty()).len() <= usize::MAX,
    ensures
        step.stage matches Stage::Lookup { url } ==> (completion matches Completion::PullRequest(
            info,
        ) ==> {
            let listed = is_listed(ctx.repositories, url.repo@);
            let of = step.flow;
            &&& listed ==> next.background == ctx.background
            &&& !listed && !of.auto ==> next.background == ctx.background && (
            flow matches ModalFlow::Replace(Modal::Confirm(dialog)) && dialog.on_confirm == Some(
                Work::Clone { url, info, flow: of },
            ))
            &&& !listed && of.auto && ctx.args.repos_dirs@.len() == 1 ==> next.background@.len()
                == ctx.background@.len() + 1
            &&& !listed && of.auto && ctx.args.repos_dirs@.len() >= 2 ==> next.background
                == ctx.background && (flow matches ModalFlow::Replace(Modal::SelectReposDir(picker))
                && picker.dirs@ == ctx.args.repos_dirs@)
        }),
        step.stage matches Stage::Clone { url, info } ==> (completion matches Completion::Cloned {
            opened,
            ..
        } ==> {
            &&& opened matches Ok(repos) ==> next.repositories.repositories@
                == ctx.repositories.repositories@ + repos@
            &&& opened is Err ==> flow is Close && next.repositories == ctx.repositories
            &&& next.background == ctx.background
        }),
        (step.stage is Lookup && !(completion is PullRequest)) || (step.stage is Clone && !(
        completion is Cloned)) ==> flow is Close && next.notify@ == Some(
            (
                Severity::Error,
                "unexpected background result: "@ + completion_text(completion),
                ctx.now,
            ),
        ),
{
    match (step.stage, completion) {
        (Stage::Lookup { url }, Completion::PullRequest(info)) => {
            law_a_missing_repository_is_cloned_after_a_question(
                ctx,
                url,
                info,
                step.flow,
                flow,
                next,
            );
        },
        (Stage::Clone { url, info }, Completion::Cloned { opened, .. }) => {
            law_a_clone_joins_the_list(ctx, url, info, opened, step.flow.auto, flow, next);
        },
        _ => {},
    }
}

/// A pull request whose repository is listed opens its space in that repository:
/// the user is on it, and what is asked for, at once or through a prompt, is asked
/// for in a repository of that name.
pub proof fn law_a_listed_repository_is_not_cloned(
    ctx: AppContext,
    url: PrUrl,
    info: PrInfo,
    of: Flow,
    flow: ModalFlow,
    next: AppContext,
)
    requires
        ctx.looked_up(url, info, of, flow, next),
        is_listed(ctx.repositories, url.repo@),
        repo_rows(ctx.repositories.repositories@, Seq::empty()).len() <= usize::MAX,
        rows_of(ctx.worktrees.spaces@, Seq::empty(), ctx.worktrees.repo_scope).len() <= usize::MAX,
    ensures
        next.background == ctx.background,
        next.repositories.selected() matches Some(repo) && repo.name@ == url.repo@,
        ({
            let here = exists|x: int|
                0 <= x < ctx.worktrees.spaces@.len() && (
                #[trigger] ctx.worktrees.spaces@[x]).space.name@ == info.branch_name@
                    && crate::components::worktrees::is_in_scope(
                    ctx.worktrees.spaces@[x],
                    ctx.worktrees.repo_scope,
                );
            &&& here ==> flow is Close && (next.worktrees.selected() matches Some(entry)
                && entry.space.name@ == info.branch_name@)
            &&& !here && of.auto ==> flow is Close && (
            next.effects@.last() matches Effect::CreateSpace(creation) && creation.name@
                == info.branch_name@ && creation.repo.name@ == url.repo@ && creation.notice is None)
            &&& !here && !of.auto ==> (flow matches ModalFlow::Replace(
                Modal::CreateWorktree(prompt),
            ) && prompt.new_worktree_name@ == info.branch_name@ && prompt.repo_name@ == url.repo@)
        }),
{
    let repositories = choose|repositories: RepositoriesComponent|
        {
            let mid = ctx.with_repositories(repositories);
            &&& #[trigger] ctx.repositories.named(url.repo@, repositories)
            &&& if ctx.repositories.row_named(url.repo@) is Some {
                mid.space_opened(url, info, of.auto, None, flow, next)
            } else if of.auto {
                mid.clone_decided(url, info, of, flow, next)
            } else {
                &&& next == mid
                &&& flow matches ModalFlow::Replace(Modal::Confirm(dialog))
                &&& is_clone_dialog(dialog, url, info, of)
            }
        };
    law_a_repository_is_gone_to(ctx.repositories, url.repo@, repositories);
    let mid = ctx.with_repositories(repositories);
    law_a_pull_request_opens_its_space(mid, url, info, of.auto, None, flow, next);
    assert(mid.repositories.selected() is Some);
}

/// What is told once a pull request has its space: that the pull request is merged,
/// where its space was there already; and of a clone nobody was asked about, unless
/// something more urgent is on show. A space that is created at once tells of both
/// itself.
pub proof fn law_a_merged_pull_request_is_told_of(
    ctx: AppContext,
    url: PrUrl,
    info: PrInfo,
    auto: bool,
    notice: Option<Seq<char>>,
    flow: ModalFlow,
    next: AppContext,
)
    requires
        ctx.space_opened(url, info, auto, notice, flow, next),
    ensures
        ctx.worktrees.can_show(info.branch_name@) && info.is_merged && notice is None
            ==> next.notify@ == Some(
            (Severity::Info, "PR is merged \u{2014} existing worktree selected"@, ctx.now),
        ),
        ctx.worktrees.can_show(info.branch_name@) && !info.is_merged && notice is None
            ==> next.notify@ == ctx.notify@,
        !ctx.worktrees.can_show(info.branch_name@) && !auto && notice is None ==> next.notify@
            == ctx.notify@,
        !ctx.worktrees.can_show(info.branch_name@) && auto && ctx.repositories.selected() is Some
            ==> next.notify == ctx.notify && (next.effects@.last() matches Effect::CreateSpace(
            creation,
        ) && opt_text(creation.notice) == notice && creation.merged == info.is_merged),
        !ctx.worktrees.can_show(info.branch_name@) && !auto ==> (flow matches ModalFlow::Replace(
            Modal::CreateWorktree(prompt),
        ) && opt_text(prompt.warning) == (if info.is_merged {
            Some("PR is merged, branch may be deleted on remote"@)
        } else {
            None
        })),
{
}

/// Good news gives way to a warning and to a failure that is on show, and to nothing
/// else.
pub proof fn law_good_news_gives_way(
    shown: Option<(Severity, Seq<char>, u64)>,
    notice: Option<Seq<char>>,
    now: u64,
)
    ensures
        notice is None ==> advised(shown, notice, now) == shown,
        notice matches Some(text) ==> {
            let urgent = shown is Some && ((shown->0).0 == Severity::Warning || (shown->0).0
                == Severity::Error);
            &&& urgent ==> advised(shown, notice, now) == shown
            &&& !urgent ==> advised(shown, notice, now) == Some((Severity::Info, text, now))
        },
{
}

/// The prompt for the branch of a pull request is one for the repository the user is
/// on, through the backend it is offered by, and asks what the branch would start
/// from.
pub proof fn law_a_branch_is_asked_for_in_its_repository(
    ctx: AppContext,
    url: PrUrl,
    info: PrInfo,
    flow: ModalFlow,
    effects: Seq<Effect>,
    repo: Repo,
)
    requires
        ctx.branch_asked(url, info, flow, effects),
        ctx.repositories.selected() == Some(repo),
    ensures
        flow matches ModalFlow::Replace(Modal::CreateWorktree(prompt)) && prompt.repo_name@
            == repo.name@ && prompt.backend == repo.backend && (prompt.colocated <==> backends_on(
            ctx.repositories.repositories@,
            repo.id@,
        ).len() >= 2) && prompt.new_worktree_name@ == info.branch_name@,
        effects == ctx.effects@.push(Effect::RefreshRemotes { repo }).push(
            Effect::ResolveBase { repo, name: info.branch_name },
        ),
{
}

/// What is told of a created space: that its pull request is merged, before anything
/// else; else what there is to tell; and else nothing, so that an old failure goes.
pub proof fn law_what_is_told_of_a_created_space(
    ctx: AppContext,
    creation: Creation,
    space: Space,
    next: AppContext,
)
    requires
        ctx.welcomed(creation, space, next),
    ensures
        creation.merged ==> next.notify@ == Some(
            (Severity::Warning, "PR is merged, branch may be deleted on remote"@, ctx.now),
        ),
        !creation.merged ==> (creation.notice matches Some(notice) ==> next.notify@ == Some(
            (Severity::Info, notice@, ctx.now),
        )),
        !creation.merged && creation.notice is None ==> next.notify@ is None,
{
}

/// A clone nobody was asked about is told of once its space is there.
pub proof fn law_an_unasked_clone_is_told_of(
    ctx: AppContext,
    url: PrUrl,
    info: PrInfo,
    repos: Vec<Repo>,
    flow: ModalFlow,
    next: AppContext,
)
    requires
        ctx.cloned(url, info, Ok::<Vec<Repo>, String>(repos), true, flow, next),
        ctx.args.repos_dirs@.len() == 1,
        !ctx.worktrees.can_show(info.branch_name@),
        next.repositories.selected() is Some,
    ensures
        next.effects@.last() matches Effect::CreateSpace(creation) && opt_text(creation.notice)
            == Some(
            "Cloned "@ + url.repo@
                + " with git \u{2014} run `jj git init --colocate` in it for jj"@,
        ) && creation.repo == next.repositories.selected()->0,
{
    let (joined, named) = choose|joined: RepositoriesComponent, named: RepositoriesComponent|
        {
            &&& joined.repositories@ == ctx.repositories.repositories@ + repos@
            &&& joined == (RepositoriesComponent {
                repositories: joined.repositories,
                ..ctx.repositories
            })
            &&& #[trigger] joined.named(url.repo@, named)
            &&& ctx.with_repositories(named).space_opened(
                url,
                info,
                true,
                crate::components::pr_worktree::clone_notice(url, true, ctx.args.repos_dirs@.len()),
                flow,
                next,
            )
        };
    assert(next.repositories == named);
}

/// The question before a clone names the repository and where it would come from,
/// and destroys nothing.
pub proof fn law_a_clone_is_asked_about_in_words(
    dialog: ConfirmComponent,
    url: PrUrl,
    info: PrInfo,
    of: Flow,
)
    requires
        is_clone_dialog(dialog, url, info, of),
    ensures
        dialog.title@ == "Clone Repository"@,
        dialog.label@ == "Repository '"@ + url.repo@
            + "' not found. Clone from GitHub with git?"@,
        dialog.detail@ == "git@github.com:"@ + url.owner@ + "/"@ + url.repo@ + ".git"@,
        dialog.losses@.len() == 0 && dialog.removals@.len() == 0,
        dialog.aftermath is None && dialog.retained is None,
{
}

/// Where the selected space has no open repository its deletion is not asked for, and
/// the reason names it; where nothing is selected there is nothing to say.
pub proof fn law_a_deletion_that_cannot_be_is_told_of(ctx: AppContext, next: AppContext)
    requires
        ctx.deletion_wanted(next),
    ensures
        ctx.worktrees.selected() is None ==> next.notify@ is None && next.effects == ctx.effects,
        ctx.worktrees.doomed() matches Some(space) ==> (ctx.repositories.owner_of(space) is None
            ==> next.effects == ctx.effects && next.notify@ == Some(
            (
                Severity::Error,
                "no open repository for the space "@ + debug_of(space.name@)
                    + "; it cannot be deleted"@,
                ctx.now,
            ),
        )),
        ctx.worktrees.doomed() matches Some(space) ==> (ctx.repositories.owner_of(space) is Some
            ==> next.notify == ctx.notify),
{
    law_a_deletion_is_of_the_selected_row(ctx.worktrees);
}

/// Where no repository is selected a pull request's space is asked for in none: the
/// user is told, or is shown the prompt without a repository.
pub proof fn law_no_space_without_a_repository(
    ctx: AppContext,
    url: PrUrl,
    info: PrInfo,
    auto: bool,
    notice: Option<Seq<char>>,
    flow: ModalFlow,
    next: AppContext,
)
    requires
        ctx.space_opened(url, info, auto, notice, flow, next),
        ctx.repositories.selected() is None,
        !ctx.worktrees.can_show(info.branch_name@),
    ensures
        next.effects@ == ctx.effects@,
        auto ==> flow is Close && next.notify@ == Some(
            (Severity::Error, "no repository is selected"@, ctx.now),
        ),
        !auto ==> (flow matches ModalFlow::Replace(Modal::CreateWorktree(prompt))
            && prompt.repo_name@.len() == 0 && prompt.new_worktree_name@ == info.branch_name@),
{
}

/// Every popup explains its own keys.
pub proof fn law_every_popup_explains_its_own_keys(modal: Modal)
    ensures
        modal is Repositories ==> modal.keys() == repositories_table(),
        modal matches Modal::CreateWorktree(prompt) ==> modal.keys() == prompt.keys(),
        modal matches Modal::Confirm(dialog) ==> modal.keys() == dialog.keys(),
        modal matches Modal::PrWorktree(prompt) ==> modal.keys() == prompt.keys(),
        modal is SelectReposDir ==> modal.keys() == select_directory_table(),
        modal is Help ==> modal.keys().len() == 0,
{
}

/// Once its repository was cloned the user is on it, and its space is opened there.
pub proof fn law_a_cloned_repository_is_gone_to(
    ctx: AppContext,
    url: PrUrl,
    info: PrInfo,
    repos: Vec<Repo>,
    auto: bool,
    flow: ModalFlow,
    next: AppContext,
)
    requires
        ctx.cloned(url, info, Ok::<Vec<Repo>, String>(repos), auto, flow, next),
        repo_rows(ctx.repositories.repositories@ + repos@, Seq::empty()).len() <= usize::MAX,
    ensures
        next.repositories.filter.value@.len() == 0,
        (exists|i: int|
            0 <= i < repo_rows(ctx.repositories.repositories@ + repos@, Seq::empty()).len() && (
            #[trigger] (ctx.repositories.repositories@ + repos@)[repo_rows(
                ctx.repositories.repositories@ + repos@,
                Seq::empty(),
            )[i]]).name@ == url.repo@) ==> (next.repositories.selected() matches Some(repo)
            && repo.name@ == url.repo@),
{
    let (joined, named) = choose|joined: RepositoriesComponent, named: RepositoriesComponent|
        {
            &&& joined.repositories@ == ctx.repositories.repositories@ + repos@
            &&& joined == (RepositoriesComponent {
                repositories: joined.repositories,
                ..ctx.repositories
            })
            &&& #[trigger] joined.named(url.repo@, named)
            &&& ctx.with_repositories(named).space_opened(
                url,
                info,
                auto,
                crate::components::pr_worktree::clone_notice(
                    url,
                    auto,
                    ctx.args.repos_dirs@.len(),
                ),
                flow,
                next,
            )
        };
    law_a_repository_is_gone_to(joined, url.repo@, named);
    assert(next.repositories == named);
    let all = ctx.repositories.repositories@ + repos@;
    let rows = repo_rows(all, Seq::empty());
    if exists|i: int| 0 <= i < rows.len() && (#[trigger] all[rows[i]]).name@ == url.repo@ {
        let i = choose|i: int| 0 <= i < rows.len() && (#[trigger] all[rows[i]]).name@ == url.repo@;
        assert(joined.repositories@[rows[i]].name@ == url.repo@);
        assert(is_listed(joined, url.repo@));
    }
}

} // verus!
