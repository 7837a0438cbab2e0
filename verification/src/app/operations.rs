//! What each key of the list, and each answer, comes to.

use vstd::prelude::*;

use super::answers::is_delete_dialog;
use super::keys::{stack_after, state_of, Settling};
use super::laws::law_a_scan_walks_every_root_once;
use super::scan::{are_scans, fetches, is_scan, repos_of, rereads};
use super::{App, PrFlow};
use crate::components::confirm::{ConfirmComponent, Gate, Work};
use crate::components::context::{
    AppContext, BackgroundWork, Creation, Effect, Modal, ModalFlow,
};
use crate::components::help::worktrees_table;
use crate::components::laws::law_a_deletion_names_the_selected_space;
use crate::components::list::Focus;
use crate::components::notify::Severity;
use crate::components::pr_worktree::PrStep;
use crate::components::repositories::{
    entries_of, first_paths, is_open, listed_spaces, unlisted, Listing,
};
use crate::components::worktrees::laws::{
    law_a_space_is_deleted_through_its_owner, law_the_spaces_are_moved_in_and_searched,
};
use crate::components::worktrees::row::SpaceEntry;
use crate::components::worktrees::status::Activity;
use crate::components::worktrees::{law_an_emptied_repository_loses_its_rows, rows_of_others};
use crate::components::{Action, EventState};
use crate::hooks::summary_text;
use crate::jobs::background::{Background, Effort};
use crate::jobs::in_flight::{fetching, Kind, TrackedJob};
use crate::jobs::{Completion, Job, JobId, JobKind, JobResult, Queued, Worker};
use crate::keymap::{action_of, InputMode, KeyEvent};
use crate::text::{is_control_char, joined, views};
use crate::vcs::{Consequence, DeletionRisk, Repo, Space};

verus! {

// ---------------------------------------------------------------------------
// The keys of the list
// ---------------------------------------------------------------------------

/// Both keys that delete ask what the deletion of the very space the user is on
/// would cost, and do nothing else; one of them says that it is not to be asked
/// about.
pub proof fn law_deleting_assesses_the_selected_space(
    app: App,
    action: Action,
    state: EventState,
    next: App,
)
    requires
        app.list_handled(action, state, next),
        action is DeleteWithConfirmation || action is ForceDelete,
    ensures
        state is Consumed,
        next.modals == app.modals,
        next.ctx.worktrees == app.ctx.worktrees,
        app.ctx.worktrees.selected() is None ==> next == app,
        app.ctx.worktrees.selected() matches Some(entry) ==> {
            &&& next.ctx.effects@.len() == app.ctx.effects@.len() + 1
            &&& next.ctx.effects@.drop_last() == app.ctx.effects@
            &&& next.ctx.effects@.last() matches Effect::AssessDeletion { space, owner, forced }
            &&& space == entry.space
            &&& forced == (action is ForceDelete)
            &&& owner matches Some(repo) ==> repo.id@ == space.repo@ && repo.backend
                == space.backend
        },
{
    if let Some(entry) = app.ctx.worktrees.selected() {
        law_a_space_is_deleted_through_its_owner(app.ctx.repositories, entry.space);
        assert(next.ctx.effects@.drop_last() =~= app.ctx.effects@);
    }
}

/// A deletion is carried out unasked only where that was wanted and nothing is at
/// risk; any other is asked about, and the question is the harder the more would
/// be lost. What is carried out is the deletion of the space that was assessed,
/// while the user is still on it.
pub proof fn law_a_deletion_is_of_what_was_assessed(
    app: App,
    space: Space,
    risk: DeletionRisk,
    forced: bool,
    next: App,
)
    requires
        app.risk_known(space, risk, forced, next),
    ensures
        next.ctx.effects@ != app.ctx.effects@ ==> forced && risk.consequence
            == Consequence::Nothing,
        next.ctx.effects@ != app.ctx.effects@ && (app.ctx.worktrees.selected() matches Some(entry)
            && entry.space == space) ==> (next.ctx.effects@.last() matches Effect::DeleteSpace(
            deletion,
        ) && deletion.space.path@ == space.path@),
        !(forced && risk.consequence == Consequence::Nothing) ==> {
            &&& next.ctx == app.ctx
            &&& next.modals@.len() == app.modals@.len() + 1
            &&& next.modals@.drop_last() == app.modals@
            &&& next.modals@.last() matches Modal::Confirm(dialog)
            &&& dialog.detail == space.path
            &&& dialog.on_confirm == Some(Work::DeleteSpace)
            &&& risk.consequence == Consequence::Nothing ==> dialog.gate == Gate::Enter
            &&& risk.consequence == Consequence::RecoverableLoss ==> dialog.gate == Gate::Override
                && dialog.losses == risk.losses
            &&& risk.consequence == Consequence::PermanentLoss ==> dialog.losses == risk.losses && (
            dialog.gate matches Gate::Phrase { expected, typed } && expected == space.name
                && typed@.len() == 0)
            &&& dialog.removals == risk.removals
        },
        forced && risk.consequence == Consequence::Nothing ==> next.modals == app.modals,
{
    if forced && risk.is_safe() {
        law_a_deletion_names_the_selected_space(app.ctx, next.ctx);
    }
}

/// To confirm a deletion deletes the space the user is on.
pub proof fn law_confirming_deletes_the_selected_space(
    ctx: AppContext,
    dialog: ConfirmComponent,
    action: Action,
    flow: ModalFlow,
    left: Modal,
    next: AppContext,
)
    requires
        Modal::Confirm(dialog).handled(action, ctx, flow, left, next),
        dialog.on_confirm == Some(Work::DeleteSpace),
        next.effects@ != ctx.effects@,
    ensures
        dialog.gate is Enter ==> action is Select,
        dialog.gate is Override ==> action == Action::InsertChar('X'),
        dialog.gate matches Gate::Phrase { expected, typed } ==> action is Select && typed@
            == expected@,
        flow is Close,
        ctx.worktrees.selected() is Some,
        next.effects@.last() matches Effect::DeleteSpace(deletion) && deletion.space.path@
            == ctx.worktrees.selected()->0.space.path@ && deletion.repo.id@ == deletion.space.repo@,
{
    law_a_deletion_names_the_selected_space(ctx, next);
}

/// Enter on a row leaves with the path of that row; without a row it does nothing.
pub proof fn law_enter_leaves_with_the_selected_path(app: App, state: EventState, next: App)
    requires
        app.list_handled(Action::Select, state, next),
    ensures
        app.ctx.worktrees.selected() matches Some(entry) ==> state is Exit && next.selected_path
            == Some(entry.space.path),
        app.ctx.worktrees.selected() is None ==> state is Consumed && next.selected_path
            == app.selected_path,
        next.ctx.worktrees == app.ctx.worktrees,
        next.modals == app.modals,
        next.ctx.effects == app.ctx.effects,
{
}

/// The keys that open a popup open that popup over the list, and change nothing
/// else.
pub proof fn law_a_key_opens_its_popup(app: App, action: Action, state: EventState, next: App)
    requires
        app.list_handled(action, state, next),
        action is OpenRepositories || action is OpenPrWorktree || action is OpenPrWorktreeAutoClone,
    ensures
        state is Consumed,
        next.modals@.len() == app.modals@.len() + 1,
        next.modals@.drop_last() == app.modals@,
        next.ctx == app.ctx,
        next.background == app.background,
        action is OpenRepositories ==> next.modals@.last() is Repositories,
        action is OpenPrWorktree ==> (next.modals@.last() matches Modal::PrWorktree(prompt)
            && !prompt.auto_clone && prompt.input@.len() == 0 && prompt.waiting is None),
        action is OpenPrWorktreeAutoClone ==> (next.modals@.last() matches Modal::PrWorktree(
            prompt,
        ) && prompt.auto_clone && prompt.input@.len() == 0 && prompt.waiting is None),
{
    assert(next.modals@.drop_last() =~= app.modals@);
}

/// The focus and the mode go together: to type is to be in the filter.
pub proof fn law_the_focus_follows_the_mode(app: App, action: Action, state: EventState, next: App)
    requires
        app.list_handled(action, state, next),
    ensures
        action is EnterInsertMode ==> next.mode == InputMode::Insert && next.ctx.worktrees.focus
            == Focus::Filter,
        action is ExitInsertMode ==> next.mode == InputMode::Normal && next.ctx.worktrees.focus
            == Focus::List,
        action is FocusNext && app.ctx.worktrees.focus == Focus::List ==> next.mode
            == InputMode::Insert && next.ctx.worktrees.focus == Focus::Filter,
        action is FocusNext && app.ctx.worktrees.focus == Focus::Filter ==> next.mode
            == InputMode::Normal && next.ctx.worktrees.focus == Focus::List,
        action is EnterInsertMode || action is ExitInsertMode || action is FocusNext ==> {
            &&& state is Consumed
            &&& next.modals == app.modals
            &&& next.background == app.background
            &&& next.ctx.worktrees.spaces == app.ctx.worktrees.spaces
            &&& next.ctx.worktrees.filter == app.ctx.worktrees.filter
            &&& next.ctx.worktrees.selected_index == app.ctx.worktrees.selected_index
        },
{
}

/// The keys that read again start a re-read, a scan, or the fetch of one
/// repository, each its own.
pub proof fn law_a_key_starts_its_work(app: App, action: Action, state: EventState, next: App)
    requires
        app.list_handled(action, state, next),
    ensures
        action is Refresh ==> app.refresh_started(next),
        action is Rescan ==> app.scan_started(next),
        action is FetchSelected ==> app.fetch_started(next),
{
}

/// A fetch is of the repository that owns the selected space, and of no other; it
/// is asked for once, and where no repository owns the space the user is told.
pub proof fn law_a_fetch_is_of_the_selected_repository(app: App, next: App)
    requires
        app.fetch_started(next),
    ensures
        app.ctx.worktrees.selected() is None ==> next == app,
        app.ctx.worktrees.selected() matches Some(entry) ==> match app.ctx.repositories.owner_of(
            entry.space,
        ) {
            None => next.background == app.background && next.ctx.notify@ == Some(
                (Severity::Error, "no open repository owns "@ + entry.space.path@, app.ctx.now),
            ),
            Some(repo) => {
                &&& repo.id@ == entry.space.repo@
                &&& repo.backend == entry.space.backend
                &&& fetching(app.background@.out, repo.path@) ==> next == app
                &&& !fetching(app.background@.out, repo.path@) ==> next.background@
                    == app.background@.with_job(
                    Job::FetchRemotes { path: repo.path },
                    TrackedJob::Fetch(repo.path),
                )
                &&& next.ctx.notify == app.ctx.notify
            },
        },
        next.ctx.worktrees.spaces == app.ctx.worktrees.spaces,
{
    if let Some(entry) = app.ctx.worktrees.selected() {
        law_a_space_is_deleted_through_its_owner(app.ctx.repositories, entry.space);
    }
}

// ---------------------------------------------------------------------------
// The stack
// ---------------------------------------------------------------------------

/// A popup that closes takes itself off and nothing else; one that is followed by
/// another gives it its place; every other key leaves the stack as it is.
pub proof fn law_a_popup_answers_for_itself_alone(modals: Seq<Modal>, flow: ModalFlow)
    requires
        modals.len() > 0,
    ensures
        flow is Consumed || flow is Ignored ==> stack_after(modals, flow) == modals,
        flow is Close ==> stack_after(modals, flow) == modals.take(modals.len() - 1),
        flow matches ModalFlow::Replace(modal) ==> stack_after(modals, flow) == modals.update(
            modals.len() - 1,
            modal,
        ),
{
    assert(modals.drop_last() =~= modals.take(modals.len() - 1));
    if let ModalFlow::Replace(modal) = flow {
        assert(modals.drop_last().push(modal) =~= modals.update(modals.len() - 1, modal));
    }
}

// ---------------------------------------------------------------------------
// Work that popups leave
// ---------------------------------------------------------------------------

/// A job that is handed over is at the end of the queue under a new id, and its
/// answer is wanted for what it is for; the other jobs are as they were.
pub proof fn law_a_submitted_job_is_queued_and_wanted(effort: Effort, job: Job, what: TrackedJob)
    requires
        effort.pool is Some,
    ensures
        ({
            let pool = effort.pool->0;
            let id = JobId { number: pool.next_id };
            let after = effort.with_job(job, what);
            &&& after.out == effort.out.insert(id, what)
            &&& after.pool is Some
            &&& !pool.stopping ==> after.pool->0.queue == pool.queue.push(Queued { id, job })
            &&& !pool.stopping ==> after.pool->0.wanted == pool.wanted.insert(id)
            &&& pool.stopping ==> after.pool->0.queue == pool.queue
            &&& after.pool->0.threads == pool.threads
            &&& after.pool->0.idle == pool.idle
            &&& effort.next() == Some(id)
        }),
{
}

/// What a popup leaves to be done is handed to the pool: hooks run for their plan,
/// and a request is what the flow then waits for, with the popups that are up.
pub proof fn law_left_work_is_started(parts: Settling, work: BackgroundWork, now: u64)
    requires
        parts.effort.pool is Some,
    ensures
        work matches BackgroundWork::Hooks(plan) ==> parts.after(work, now).effort
            == parts.effort.with_job(Job::RunHooks { plan }, TrackedJob::Hooks) && parts.after(
            work,
            now,
        ).flow == parts.flow && parts.after(work, now).modals == parts.modals,
        work matches BackgroundWork::Routed { job, step } ==> {
            let after = parts.after(work, now);
            &&& after.flow matches Some(flow)
            &&& flow.step == step
            &&& flow.depth == parts.modals.len() as usize
            &&& after.effort.out.contains_key(flow.id)
            &&& after.effort.out[flow.id] is Routed
            &&& after.modals == parts.modals
            &&& after.news == parts.news
            &&& !after.effort.pool->0.stopping ==> after.effort.pool->0.queue.len() > 0
                && after.effort.pool->0.queue.last() == (Queued { id: flow.id, job })
        },
        work is Abandon ==> {
            let after = parts.after(work, now);
            &&& after.flow is None
            &&& after.modals == parts.modals
            &&& parts.flow matches Some(flow) ==> !after.effort.out.contains_key(flow.id)
            &&& parts.flow is None ==> after.effort == parts.effort
        },
{
}

// ---------------------------------------------------------------------------
// Answers
// ---------------------------------------------------------------------------

/// What was fetched is read again from disk; what was read takes the place of the
/// rows of that very repository; a report of hooks is shown only where one failed;
/// and a failure is shown with what it was.
pub proof fn law_an_answer_is_taken_in(
    app: App,
    kind: JobKind,
    outcome: Result<Completion, String>,
    next: App,
)
    requires
        app.applied(kind, outcome, next),
    ensures
        outcome matches Err(error) ==> next.ctx.notify@ == Some(
            (Severity::Error, kind.name()@ + " failed: "@ + error@, app.ctx.now),
        ) && next.background == app.background && next.ctx.worktrees == app.ctx.worktrees
            && next.ctx.repositories == app.ctx.repositories,
        outcome matches Ok(Completion::Fetched { path }) ==> next.background@
            == app.background@.with_job(Job::SpaceStatus { path }, TrackedJob::Refresh) && next.ctx
            == app.ctx,
        outcome matches Ok(Completion::HooksRan(report)) ==> next.ctx.worktrees
            == app.ctx.worktrees && match summary_text(report) {
            Some(text) => next.ctx.notify@ == Some((Severity::Error, text, app.ctx.now)),
            None => next.ctx.notify == app.ctx.notify,
        },
        outcome matches Ok(Completion::PullRequest(_)) ==> next == app,
        outcome matches Ok(Completion::Cloned { .. }) ==> next == app,
        next.modals == app.modals,
        next.pr_flow == app.pr_flow,
{
}

/// A re-read changes the rows of its own repository alone: those of every other
/// one stay, and each space that was read has one row under its repository.
pub proof fn law_a_reread_is_of_one_repository(
    app: App,
    path: Seq<char>,
    spaces: Seq<Space>,
    repo: Repo,
    next: App,
    i: int,
)
    requires
        app.reread_of(path, spaces, next),
        app.ctx.repositories.repository_of(path) == Some(repo),
        0 <= i < spaces.len(),
    ensures
        ({
            let others = rows_of_others(app.ctx.worktrees.spaces@, path);
            let rows = next.ctx.worktrees.spaces@;
            &&& rows.len() == others.len() + spaces.len()
            &&& rows.take(others.len() as int) == others
            &&& rows[others.len() + i].space == spaces[i]
            &&& rows[others.len() + i].repo_name == repo.name
            &&& rows[others.len() + i].repo_path == repo.path
            &&& forall|k: int|
                0 <= k < others.len() ==> (#[trigger] others[k]).space.repo@ != path
            &&& forall|x: int|
                0 <= x < app.ctx.worktrees.spaces@.len() && (
                #[trigger] app.ctx.worktrees.spaces@[x]).space.repo@ != path ==> others.contains(
                    app.ctx.worktrees.spaces@[x],
                )
        }),
        next.ctx.repositories == app.ctx.repositories,
        next.background == app.background,
        next.ctx.notify == app.ctx.notify,
{
    let others = rows_of_others(app.ctx.worktrees.spaces@, path);
    law_an_emptied_repository_loses_its_rows(app.ctx.worktrees.spaces@, path);
    assert(next.ctx.worktrees.spaces@.take(others.len() as int) =~= others);
}

/// What a scan found joins the lists: its repositories are counted once each, every
/// space that could be read has a row, a repository whose spaces could not be read
/// is named, and each repository is fetched where that was asked for at the start.
pub proof fn law_what_a_scan_found_joins_the_lists(app: App, found: Seq<Listing>, next: App)
    requires
        app.found(found, next),
    ensures
        next.scan_found == app.scan_found + first_paths(repos_of(found)).len(),
        ({
            let rows = next.ctx.worktrees.spaces@;
            let new = listed_spaces(found);
            &&& rows.len() >= new.len()
            &&& rows.skip(rows.len() - new.len()) == new
        }),
        unlisted(found).len() == 0 ==> next.ctx.notify == app.ctx.notify || next.ctx.notify@
            == app.ctx.notify@,
        unlisted(found).len() > 0 ==> next.ctx.notify@ is Some && (next.ctx.notify@->0).0
            == Severity::Error,
        !app.ctx.args.run_fetch ==> next.background@ == app.background@,
        app.ctx.args.run_fetch ==> next.background@ == app.background@.with_jobs(
            fetches(first_paths(repos_of(found))),
        ),
        next.modals == app.modals,
        next.pr_flow == app.pr_flow,
{
    let rows = next.ctx.worktrees.spaces@;
    let new = listed_spaces(found);
    assert(rows.skip(rows.len() - new.len()) =~= new);
}

/// Every space of a listing that could be read gets a row under its repository, and
/// only those do.
pub proof fn law_every_space_of_a_listing_has_a_row(found: Seq<Listing>, entry: SpaceEntry)
    ensures
        listed_spaces(found).contains(entry) <==> exists|k: int, i: int|
            0 <= k < found.len() && found[k].spaces is Ok && 0 <= i < found[k].spaces->Ok_0@.len()
                && entry.space == (#[trigger] found[k].spaces->Ok_0@[i]) && entry.repo_name
                == found[k].repo.name && entry.repo_path == found[k].repo.path,
    decreases found.len(),
{
    if found.len() > 0 {
        let rest = found.drop_last();
        let last = found.last();
        law_every_space_of_a_listing_has_a_row(rest, entry);
        let all = listed_spaces(found);
        let some = listed_spaces(rest);
        let n = found.len() - 1;
        if all.contains(entry) {
            let j = choose|j: int| 0 <= j < all.len() && all[j] == entry;
            if j < some.len() {
                assert(some[j] == entry);
                let (k, i) = choose|k: int, i: int|
                    0 <= k < rest.len() && rest[k].spaces is Ok && 0 <= i
                        < rest[k].spaces->Ok_0@.len() && entry.space == (
                    #[trigger] rest[k].spaces->Ok_0@[i]) && entry.repo_name == rest[k].repo.name
                        && entry.repo_path == rest[k].repo.path;
                assert(found[k] == rest[k]);
                assert(entry.space == found[k].spaces->Ok_0@[i]);
            } else {
                assert(last.spaces is Ok);
                let spaces = last.spaces->Ok_0@;
                let i = j - some.len();
                assert(entries_of(last.repo, spaces)[i] == entry);
                assert(entry.space == found[n].spaces->Ok_0@[i]);
            }
        }
        if exists|k: int, i: int|
            0 <= k < found.len() && found[k].spaces is Ok && 0 <= i < found[k].spaces->Ok_0@.len()
                && entry.space == (#[trigger] found[k].spaces->Ok_0@[i]) && entry.repo_name
                == found[k].repo.name && entry.repo_path == found[k].repo.path {
            let (k, i) = choose|k: int, i: int|
                0 <= k < found.len() && found[k].spaces is Ok && 0 <= i
                    < found[k].spaces->Ok_0@.len() && entry.space == (
                #[trigger] found[k].spaces->Ok_0@[i]) && entry.repo_name == found[k].repo.name
                    && entry.repo_path == found[k].repo.path;
            if k < n {
                assert(rest[k] == found[k]);
                assert(entry.space == rest[k].spaces->Ok_0@[i]);
                let j = choose|j: int| 0 <= j < some.len() && some[j] == entry;
                assert(all[j] == entry);
            } else {
                let spaces = last.spaces->Ok_0@;
                assert(entries_of(last.repo, spaces)[i] == entry);
                assert(all[some.len() + i] == entry);
            }
        }
    }
}

/// A repository whose spaces could not be read is named, and no other is.
pub proof fn law_an_unread_repository_is_named(found: Seq<Listing>, name: String)
    ensures
        unlisted(found).contains(name) <==> exists|k: int|
            0 <= k < found.len() && (#[trigger] found[k]).spaces is Err && found[k].repo.name
                == name,
    decreases found.len(),
{
    if found.len() > 0 {
        let rest = found.drop_last();
        law_an_unread_repository_is_named(rest, name);
        let all = unlisted(found);
        let some = unlisted(rest);
        let n = found.len() - 1;
        if all.contains(name) {
            let j = choose|j: int| 0 <= j < all.len() && all[j] == name;
            if j < some.len() {
                assert(some[j] == name);
                let k = choose|k: int|
                    0 <= k < rest.len() && (#[trigger] rest[k]).spaces is Err && rest[k].repo.name
                        == name;
                assert(found[k] == rest[k]);
            } else {
                assert(found[n].spaces is Err && found[n].repo.name == name);
            }
        }
        if exists|k: int|
            0 <= k < found.len() && (#[trigger] found[k]).spaces is Err && found[k].repo.name
                == name {
            let k = choose|k: int|
                0 <= k < found.len() && (#[trigger] found[k]).spaces is Err && found[k].repo.name
                    == name;
            if k < n {
                assert(rest[k] == found[k]);
                let j = choose|j: int| 0 <= j < some.len() && some[j] == name;
                assert(all[j] == name);
            } else {
                assert(all[some.len() as int] == name);
            }
        }
    }
}

/// A repository counts once however many backends opened it: its path is listed
/// exactly where some backend opened it, and no path twice.
pub proof fn law_a_repository_counts_once(repos: Seq<Repo>, id: Seq<char>)
    requires
        forall|k: int| 0 <= k < repos.len() ==> (#[trigger] repos[k]).id@ == repos[k].path@,
    ensures
        (exists|j: int| 0 <= j < first_paths(repos).len() && #[trigger] first_paths(repos)[j]@ == id)
            <==> is_open(repos, id),
        forall|i: int, j: int|
            0 <= i < j < first_paths(repos).len() ==> (#[trigger] first_paths(repos)[i])@ != (
            #[trigger] first_paths(repos)[j])@,
    decreases repos.len(),
{
    if repos.len() > 0 {
        let rest = repos.drop_last();
        assert forall|k: int| 0 <= k < rest.len() implies (#[trigger] rest[k]).id@
            == rest[k].path@ by {
            assert(rest[k] == repos[k]);
        }
        law_a_repository_counts_once(rest, id);
        law_a_repository_counts_once(rest, repos.last().id@);
        assert(repos[repos.len() - 1] == repos.last());
        let all = first_paths(repos);
        let some = first_paths(rest);
        if is_open(rest, id) {
            let k = choose|k: int| 0 <= k < rest.len() && #[trigger] rest[k].id@ == id;
            assert(repos[k].id@ == id);
            let j = choose|j: int| 0 <= j < some.len() && #[trigger] some[j]@ == id;
            assert(all[j]@ == id);
        }
        if is_open(repos, id) && !is_open(rest, id) {
            let k = choose|k: int| 0 <= k < repos.len() && #[trigger] repos[k].id@ == id;
            if k < rest.len() {
                assert(rest[k].id@ == id);
            }
            assert(all[some.len() as int]@ == id);
        }
        if exists|j: int| 0 <= j < all.len() && #[trigger] all[j]@ == id {
            let j = choose|j: int| 0 <= j < all.len() && #[trigger] all[j]@ == id;
            if j < some.len() {
                assert(some[j]@ == id);
            } else {
                assert(repos[repos.len() - 1].id@ == id);
            }
        }
    }
}

/// Each repository of a round is asked once, for its own path.
pub proof fn law_a_round_asks_each_path(paths: Seq<String>, i: int)
    requires
        0 <= i < paths.len(),
    ensures
        rereads(paths).len() == paths.len(),
        rereads(paths)[i] == (Job::SpaceStatus { path: paths[i] }, TrackedJob::Refresh),
        fetches(paths).len() == paths.len(),
        fetches(paths)[i] == (
            Job::FetchRemotes { path: paths[i] },
            TrackedJob::Fetch(paths[i]),
        ),
{
}

/// The answer to a job ends the wait for that job and for no other.
pub proof fn law_an_answer_ends_one_wait(app: App, id: JobId, other: JobId, next: App)
    requires
        app.is_answered(id, next),
        other != id,
    ensures
        !next.background@.out.contains_key(id),
        next.background@.out.contains_key(other) == app.background@.out.contains_key(other),
        app.background@.out.contains_key(other) ==> next.background@.out[other]
            == app.background@.out[other],
        next.background@.pool == app.background@.pool,
        next.ctx == app.ctx,
        next.modals == app.modals,
{
}

/// The indicator tells of the setup of spaces before re-reads, and of those before
/// fetches, and of how many are left; of a scan it tells how much was found.
pub proof fn law_the_indicator_tells_what_runs(app: App)
    ensures
        ({
            let effort = app.background@;
            let list = app.indicated().ctx.worktrees;
            &&& list.scan is Some <==> effort.count(Kind::Scan) > 0
            &&& list.scan matches Some(n) ==> n == app.scan_found
            &&& effort.count(Kind::Hooks) > 0 ==> list.busy == Some(
                (Activity::SettingUp, effort.count(Kind::Hooks) as usize),
            )
            &&& effort.count(Kind::Hooks) == 0 && effort.count(Kind::Refresh) > 0 ==> list.busy
                == Some((Activity::Refreshing, effort.count(Kind::Refresh) as usize))
            &&& effort.count(Kind::Hooks) == 0 && effort.count(Kind::Refresh) == 0 && effort.count(
                Kind::Fetch,
            ) > 0 ==> list.busy == Some((Activity::Fetching, effort.count(Kind::Fetch) as usize))
            &&& effort.count(Kind::Hooks) == 0 && effort.count(Kind::Refresh) == 0 && effort.count(
                Kind::Fetch,
            ) == 0 ==> list.busy is None
            &&& list.spaces == app.ctx.worktrees.spaces
            &&& list.selected_index == app.ctx.worktrees.selected_index
            &&& list.filter == app.ctx.worktrees.filter
        }),
        app.indicated().background == app.background,
        app.indicated().modals == app.modals,
{
}

/// A base that was asked for is told to the prompt that asked, while it still asks
/// for that name through that backend, and to no other.
pub proof fn law_a_base_is_told_to_who_asked(
    app: App,
    name: Seq<char>,
    backend: crate::vcs::Backend,
    hint: String,
    next: App,
)
    requires
        app.base_known(name, backend, hint, next),
    ensures
        next != app ==> {
            &&& app.modals@.len() > 0
            &&& app.modals@.last() matches Modal::CreateWorktree(prompt)
            &&& prompt.new_worktree_name@ == name
            &&& prompt.backend == backend
        },
        app.modals@.len() > 0 && (app.modals@.last() matches Modal::CreateWorktree(prompt)
            && prompt.new_worktree_name@ == name && prompt.backend == backend) ==> (
        next.modals@.last() matches Modal::CreateWorktree(told) && told.base_branch_hint == Some(
            hint,
        ) && told.new_worktree_name@ == name),
        next.ctx == app.ctx,
{
}

/// An answer goes to the pull request flow that waits for it, and else is taken in by
/// what it is; either way nobody waits for it any more.
pub proof fn law_an_answer_goes_to_who_waits(app: App, result: JobResult, next: App)
    requires
        app.job_handled(result, next),
        app.background@.out.contains_key(result.id),
    ensures
        exists|mid: App|
            {
                &&& #[trigger] app.is_answered(result.id, mid)
                &&& (app.pr_flow is Some && app.pr_flow->0.id == result.id) ==> mid.flow_resumed(
                    result.outcome,
                    next,
                )
                &&& !(app.pr_flow is Some && app.pr_flow->0.id == result.id) ==> exists|done: App|
                    mid.applied(result.kind, result.outcome, done) && next
                        == #[trigger] done.indicated()
            },
{
    let mid = choose|mid: App|
        {
            &&& #[trigger] app.is_answered(result.id, mid)
            &&& if app.flow_waits_for(result.id) {
                mid.flow_resumed(result.outcome, next)
            } else {
                exists|done: App|
                    {
                        &&& mid.applied(result.kind, result.outcome, done)
                        &&& next == #[trigger] done.indicated()
                    }
            }
        };
    assert(app.is_answered(result.id, mid));
}

/// An answer to a pull request flow finds the popup that waited on top: what was
/// opened over it goes, what is beneath it stays, and the flow waits for nothing.
pub proof fn law_what_covers_a_waiting_popup_goes(
    app: App,
    outcome: Result<Completion, String>,
    next: App,
)
    requires
        app.flow_resumed(outcome, next),
        app.pr_flow is Some,
        0 < app.pr_flow->0.depth <= app.modals@.len(),
    ensures
        exists|asked: ModalFlow, settled: App|
            {
                let depth = app.pr_flow->0.depth as int;
                let beneath = app.modals@.take(depth - 1);
                &&& #[trigger] app.ctx.resumed(app.pr_flow->0.step, outcome, asked, settled.ctx)
                &&& settled.pumped(next)
                &&& settled.pr_flow is None
                &&& settled.background == app.background
                &&& asked is Close ==> settled.modals@ == beneath
                &&& asked matches ModalFlow::Replace(modal) ==> settled.modals@ == beneath.push(
                    modal,
                )
                &&& asked is Consumed || asked is Ignored ==> settled.modals@ == app.modals@.take(
                    depth,
                )
            },
{
    let flow = app.pr_flow->0;
    let stack = app.modals@.subrange(0, flow.depth as int);
    let (asked, settled) = choose|asked: ModalFlow, settled: App|
        {
            &&& #[trigger] app.ctx.resumed(flow.step, outcome, asked, settled.ctx)
            &&& settled.modals@ == stack_after(stack, asked)
            &&& settled == (App {
                modals: settled.modals,
                ctx: settled.ctx,
                pr_flow: None::<PrFlow>,
                ..app
            })
            &&& settled.pumped(next)
        };
    assert(stack =~= app.modals@.take(flow.depth as int));
    assert(stack.drop_last() =~= app.modals@.take(flow.depth - 1));
    assert(app.ctx.resumed(app.pr_flow->0.step, outcome, asked, settled.ctx));
}

/// A space that was created has a row under its repository from then on, behind the
/// rows that were there; a creation that failed adds none and says why.
pub proof fn law_a_created_space_is_listed(
    app: App,
    creation: Creation,
    outcome: Result<Space, String>,
    next: App,
)
    requires
        app.created(creation, outcome, next),
        app.ctx.background@.len() == 0,
    ensures
        outcome matches Ok(space) ==> next.ctx.worktrees.spaces@ == app.ctx.worktrees.spaces@.push(
            SpaceEntry {
                repo_name: creation.repo.name,
                repo_path: creation.repo.path,
                space,
            },
        ),
        outcome matches Err(error) ==> next.ctx.worktrees.spaces == app.ctx.worktrees.spaces
            && next.ctx.notify@ == Some((Severity::Error, error@, app.ctx.now)),
        next.ctx.repositories == app.ctx.repositories,
{
    let ctx = choose|ctx: AppContext|
        {
            &&& match outcome {
                Ok(space) => app.ctx.welcomed(creation, space, ctx),
                Err(error) => app.ctx.failed(error@, ctx),
            }
            &&& #[trigger] app.with_ctx(ctx).pumped(next)
        };
    let parts = app.with_ctx(ctx).settling().after_all(ctx.background@, ctx.now);
    let mid = choose|mid: App|
        {
            &&& #[trigger] mid.is_settled(parts)
            &&& mid.ctx.background@.len() == 0
            &&& mid == (App {
                background: mid.background,
                pr_flow: mid.pr_flow,
                modals: mid.modals,
                ctx: AppContext {
                    notify: mid.ctx.notify,
                    background: mid.ctx.background,
                    ..ctx
                },
                ..app.with_ctx(ctx)
            })
            &&& next == (if parts.hooked {
                mid.indicated()
            } else {
                mid
            })
        };
    assert(next.ctx.worktrees.spaces == ctx.worktrees.spaces);
    if outcome is Err {
        assert(ctx.background@.len() == 0);
        assert(parts == app.with_ctx(ctx).settling());
    }
}

/// Everything popups left to be done is started, in the order it was left in.
pub proof fn law_work_is_started_in_order(
    parts: Settling,
    works: Seq<BackgroundWork>,
    last: BackgroundWork,
    now: u64,
)
    ensures
        parts.after_all(works.push(last), now) == parts.after_all(works, now).after(last, now),
        parts.after_all(Seq::<BackgroundWork>::empty(), now) == parts,
{
    assert(works.push(last).drop_last() =~= works);
}

/// Jobs that are handed over together are queued in order, each under an id of its
/// own, and each is wanted for what it is for.
pub proof fn law_jobs_are_queued_in_order(effort: Effort, jobs: Seq<(Job, TrackedJob)>, i: int)
    requires
        effort.has_ids(jobs.len()),
        !effort.pool->0.stopping,
        0 <= i < jobs.len(),
    ensures
        ({
            let pool = effort.pool->0;
            let after = effort.with_jobs(jobs);
            let id = JobId { number: (pool.next_id + i) as u64 };
            &&& after.pool is Some
            &&& after.pool->0.queue.len() == pool.queue.len() + jobs.len()
            &&& after.pool->0.queue[pool.queue.len() + i] == (Queued { id, job: jobs[i].0 })
            &&& after.out.contains_key(id)
            &&& after.out[id] == jobs[i].1
            &&& after.pool->0.queue.take(pool.queue.len() as int) == pool.queue
            &&& after.pool->0.next_id == pool.next_id + jobs.len()
            &&& !after.pool->0.stopping
            &&& !after.pool->0.started_over
        }),
    decreases jobs.len(),
{
    let pool = effort.pool->0;
    let before = jobs.drop_last();
    if before.len() > 0 {
        law_jobs_are_queued_in_order(
            effort,
            before,
            if i < before.len() {
                i
            } else {
                0
            },
        );
    } else {
        assert(effort.with_jobs(before) == effort);
        assert(pool.queue.take(pool.queue.len() as int) =~= pool.queue);
    }
    let mid = effort.with_jobs(before);
    let after = effort.with_jobs(jobs);
    assert(after == mid.with_job(jobs.last().0, jobs.last().1));
    assert(after.pool->0.queue.take(pool.queue.len() as int) =~= mid.pool->0.queue.take(
        pool.queue.len() as int,
    ));
}

/// A scan has a job for each directory, which walks that directory alone and leaves
/// out what is not to be walked.
pub proof fn law_a_scan_job_walks_one_directory(
    jobs: Seq<(Job, TrackedJob)>,
    roots: Seq<String>,
    excluded: Seq<String>,
    i: int,
)
    requires
        are_scans(jobs, roots, excluded),
        0 <= i < roots.len(),
    ensures
        jobs.len() == roots.len(),
        jobs[i].1 is Scan,
        jobs[i].0 matches Job::ScanRepositories { roots: walked, excluded: left_out }
            && walked@.len() == 1 && walked@[0] == roots[i] && left_out@ == excluded,
{
    assert(is_scan(jobs[i], roots[i], excluded));
}

/// The repositories whose spaces could not be read are named in one line.
pub proof fn law_unread_repositories_are_named_in_a_line(app: App, found: Seq<Listing>, next: App)
    requires
        app.found(found, next),
        unlisted(found).len() > 0,
    ensures
        next.ctx.notify@ == Some(
            (
                Severity::Error,
                "Could not list the spaces of "@ + joined(views(unlisted(found)), ", "@),
                app.ctx.now,
            ),
        ),
{
}

proof fn lemma_filter_around(
    before: Seq<char>,
    c: char,
    after: Seq<char>,
    keep: spec_fn(char) -> bool,
)
    requires
        !keep(c),
    ensures
        (before + seq![c] + after).filter(keep) == (before + after).filter(keep),
    decreases after.len(),
{
    reveal(Seq::filter);
    let whole = before + seq![c] + after;
    if after.len() == 0 {
        assert(whole.drop_last() =~= before + after);
        assert(whole.last() == c);
    } else {
        lemma_filter_around(before, c, after.drop_last(), keep);
        assert(whole.drop_last() =~= before + seq![c] + after.drop_last());
        assert((before + after).drop_last() =~= before + after.drop_last());
        assert(whole.last() == after.last() && (before + after).last() == after.last());
    }
}

proof fn lemma_filter_keeps_all(text: Seq<char>, keep: spec_fn(char) -> bool)
    requires
        forall|i: int| 0 <= i < text.len() ==> keep(#[trigger] text[i]),
    ensures
        text.filter(keep) == text,
    decreases text.len(),
{
    reveal(Seq::filter);
    if text.len() > 0 {
        let rest = text.drop_last();
        assert forall|i: int| 0 <= i < rest.len() implies keep(#[trigger] rest[i]) by {
            assert(rest[i] == text[i]);
        }
        lemma_filter_keeps_all(rest, keep);
        assert(rest.push(text.last()) =~= text);
    } else {
        assert(text.filter(keep) =~= text);
    }
}

/// What is pasted is typed as it stands where it holds no control character, and a
/// control character in it is as good as not there: no paste presses Enter.
pub proof fn law_a_paste_is_typed_without_control_characters(
    app: App,
    before: Seq<char>,
    c: char,
    after: Seq<char>,
    next: App,
)
    requires
        app.mode_in_force() == InputMode::Insert,
        '\u{0}' <= c <= '\u{1f}' || '\u{7f}' <= c <= '\u{9f}',
    ensures
        app.pasted(before + seq![c] + after, next) <==> app.pasted(before + after, next),
        (forall|i: int|
            0 <= i < before.len() ==> ' ' <= #[trigger] before[i] <= '~' || before[i] > '\u{9f}')
            ==> (app.pasted(before, next) <==> app.typed(before, next)),
{
    let keep = |x: char| !is_control_char(x);
    lemma_filter_around(before, c, after, keep);
    if forall|i: int|
        0 <= i < before.len() ==> ' ' <= #[trigger] before[i] <= '~' || before[i] > '\u{9f}' {
        lemma_filter_keeps_all(before, keep);
    }
}

/// A key is read in the mode of the popup on top and acted on there; only without a
/// popup does the list see it.
pub proof fn law_the_top_layer_acts(app: App, action: Action, state: EventState, next: App)
    requires
        app.acted(action, state, next),
    ensures
        app.modals@.len() == 0 ==> app.list_handled(action, state, next) && app.mode_in_force()
            == app.mode,
        app.modals@.len() > 0 ==> app.dispatched(action, state, next) && app.mode_in_force()
            == app.modals@.last().mode(),
{
}

/// A question about a deletion names the space it is about, and says whether work
/// goes with it.
pub proof fn law_a_deletion_is_asked_about_in_words(
    dialog: ConfirmComponent,
    space: Space,
    risk: DeletionRisk,
)
    requires
        is_delete_dialog(dialog, space, risk),
    ensures
        ({
            let noun = if space.backend == crate::vcs::Backend::Jj {
                "workspace"@
            } else {
                "worktree"@
            };
            &&& dialog.title@ == "Delete "@ + noun
            &&& risk.consequence == Consequence::Nothing ==> dialog.label@ == "Delete this "@ + noun
                + "?"@ && dialog.losses@.len() == 0 && dialog.aftermath is None
            &&& risk.consequence != Consequence::Nothing ==> dialog.label@ == "This "@ + noun
                + " holds work that exists nowhere else."@ && dialog.aftermath == risk.aftermath
            &&& dialog.detail@ == space.path@
            &&& dialog.retained == risk.retained
        }),
{
}

/// A tick turns the spinner by one picture and takes down what has been up for its
/// six seconds; it does nothing else.
pub proof fn law_a_tick_turns_the_spinner(app: App, next: App)
    requires
        app.ticked(next),
    ensures
        app.ctx.worktrees.frame < usize::MAX ==> next.ctx.worktrees.frame
            == app.ctx.worktrees.frame + 1,
        app.ctx.notify.current matches Some(message) ==> (message.shown_at <= app.ctx.now ==> (
        next.ctx.notify.current is None <==> app.ctx.now - message.shown_at >= 6_000_000_000)),
        next.ctx.notify.current is Some ==> next.ctx.notify.current == app.ctx.notify.current,
        next.ctx.worktrees.spaces == app.ctx.worktrees.spaces,
        next.ctx.worktrees.selected_index == app.ctx.worktrees.selected_index,
        next.modals == app.modals && next.background == app.background,
{
}

/// Characters are typed one after the other, in the order they stand in.
pub proof fn law_characters_are_typed_in_order(app: App, chars: Seq<char>, c: char, next: App)
    ensures
        app.typed(chars.push(c), next) <==> exists|mid: App, state: EventState|
            app.typed(chars, mid) && #[trigger] mid.acted(Action::InsertChar(c), state, next),
        app.typed(Seq::<char>::empty(), next) <==> next == app,
{
    assert(chars.push(c).drop_last() =~= chars);
    assert(chars.push(c).last() == c);
    if app.typed(chars.push(c), next) {
        let (mid, state) = choose|mid: App, state: EventState|
            app.typed(chars.push(c).drop_last(), mid) && #[trigger] mid.acted(
                Action::InsertChar(chars.push(c).last()),
                state,
                next,
            );
        assert(mid.acted(Action::InsertChar(c), state, next));
    }
    if exists|mid: App, state: EventState|
        app.typed(chars, mid) && #[trigger] mid.acted(Action::InsertChar(c), state, next) {
        let (mid, state) = choose|mid: App, state: EventState|
            app.typed(chars, mid) && #[trigger] mid.acted(Action::InsertChar(c), state, next);
        assert(mid.acted(Action::InsertChar(chars.push(c).last()), state, next));
    }
}

/// Help explains the keys of what it was opened over: those of the popup on top, or
/// else those of the list.
pub proof fn law_help_explains_the_layer_beneath(app: App, next: App)
    requires
        app.help_pushed(next),
    ensures
        next.modals@.len() == app.modals@.len() + 1,
        next.modals@.drop_last() == app.modals@,
        next.modals@.last() matches Modal::Help(help) && help.scroll == 0 && help.entries@ == (
        if app.modals@.len() == 0 {
            worktrees_table()
        } else {
            app.modals@.last().keys()
        }),
        next.ctx == app.ctx,
{
}

/// A key does what it means in the mode in force, in the layer on top; a key that
/// means nothing does nothing.
pub proof fn law_a_key_does_what_it_means(app: App, key: KeyEvent, state: EventState, next: App)
    requires
        app.key_handled(key, state, next),
    ensures
        action_of(app.mode_in_force(), key) is None ==> next == app && state is NotConsumed,
        action_of(app.mode_in_force(), key) == Some(Action::Quit) ==> next == app && state is Exit,
        action_of(app.mode_in_force(), key) == Some(Action::ShowHelp) ==> app.help_asked(next)
            && state is Consumed,
        action_of(app.mode_in_force(), key) matches Some(action) ==> (action != Action::Quit
            && action != Action::ShowHelp ==> app.acted(action, state, next)),
{
}

/// A popup keeps what a key made of it, unless the key took it off or put another in
/// its place; the popups beneath it do not notice.
pub proof fn law_a_popup_keeps_what_a_key_made_of_it(
    app: App,
    action: Action,
    state: EventState,
    next: App,
)
    requires
        app.dispatched(action, state, next),
        app.modals@.len() > 0,
    ensures
        exists|flow: ModalFlow, top: Modal, settled: App|
            {
                let n = app.modals@.len() - 1;
                &&& #[trigger] app.modals@.last().handled(action, app.ctx, flow, top, settled.ctx)
                &&& settled.pumped(next)
                &&& flow is Consumed || flow is Ignored ==> settled.modals@ == app.modals@.update(
                    n,
                    top,
                )
                &&& flow is Close ==> settled.modals@ == app.modals@.take(n)
                &&& flow matches ModalFlow::Replace(modal) ==> settled.modals@
                    == app.modals@.update(n, modal)
                &&& state is NotConsumed <==> flow is Ignored
                &&& settled.background == app.background
                &&& settled.pr_flow == app.pr_flow
                &&& settled.mode == app.mode
            },
{
    let (flow, top, settled) = choose|flow: ModalFlow, top: Modal, settled: App|
        {
            &&& #[trigger] app.modals@.last().handled(action, app.ctx, flow, top, settled.ctx)
            &&& settled.modals@ == stack_after(app.modals@.drop_last().push(top), flow)
            &&& settled == (App { modals: settled.modals, ctx: settled.ctx, ..app })
            &&& state == state_of(flow)
            &&& settled.pumped(next)
        };
    let n = app.modals@.len() - 1;
    let stack = app.modals@.drop_last().push(top);
    assert(stack =~= app.modals@.update(n, top));
    law_a_popup_answers_for_itself_alone(stack, flow);
    assert(stack.take(n) =~= app.modals@.take(n));
    if let ModalFlow::Replace(modal) = flow {
        assert(stack.update(n, modal) =~= app.modals@.update(n, modal));
    }
    assert(app.modals@.last().handled(action, app.ctx, flow, top, settled.ctx));
}

/// Whatever popups left to be done is started, and nothing of it is left; the lists
/// and the quick work are as they were.
pub proof fn law_nothing_is_left_to_be_started(app: App, next: App)
    requires
        app.pumped(next),
    ensures
        next.ctx.background@.len() == 0,
        next.background@ == app.settling().after_all(app.ctx.background@, app.ctx.now).effort,
        next.pr_flow == app.settling().after_all(app.ctx.background@, app.ctx.now).flow,
        next.modals@ == app.settling().after_all(app.ctx.background@, app.ctx.now).modals,
        next.ctx.notify@ == app.settling().after_all(app.ctx.background@, app.ctx.now).news,
        app.settling().effort == app.background@ && app.settling().flow == app.pr_flow
            && app.settling().modals == app.modals@ && app.settling().news == app.ctx.notify@,
        app.ctx.background@.len() == 0 ==> next.background@ == app.background@ && next.modals@
            == app.modals@ && next.pr_flow == app.pr_flow,
        next.ctx.worktrees.spaces == app.ctx.worktrees.spaces,
        next.ctx.repositories == app.ctx.repositories,
        next.ctx.effects == app.ctx.effects,
        next.ctx.meta == app.ctx.meta,
{
}

/// A lookup or a clone that a popup asked for is out, and is what the flow waits for.
pub proof fn law_a_request_is_out(app: App, next: App, job: Job, step: PrStep)
    requires
        app.pumped(next),
        app.ctx.background@ == seq![BackgroundWork::Routed { job, step }],
        app.background@.pool is Some,
    ensures
        next.pr_flow is Some,
        next.pr_flow->0.step == step,
        next.background@.out.contains_key(next.pr_flow->0.id),
        !next.background@.pool->0.stopping ==> next.background@.pool->0.queue.last() == (Queued {
            id: next.pr_flow->0.id,
            job,
        }),
        next.modals@ == app.modals@,
{
    let works = app.ctx.background@;
    let start = app.settling();
    assert(works.drop_last() =~= Seq::<BackgroundWork>::empty());
    assert(start.after_all(works.drop_last(), app.ctx.now) == start);
    law_nothing_is_left_to_be_started(app, next);
    law_left_work_is_started(start, works.last(), app.ctx.now);
}

/// The keys of the list move in it and type into its filter.
pub proof fn law_the_list_is_moved_in_by_its_keys(
    app: App,
    action: Action,
    state: EventState,
    next: App,
)
    requires
        app.list_handled(action, state, next),
        app.ctx.worktrees.wf(),
        app.ctx.worktrees.rows().len() <= usize::MAX,
        action is MoveDown || action is MoveUp || action is GoFirst || action is GoLast
            || action is InsertChar || action is DeleteChar,
    ensures
        state is Consumed,
        app.ctx.worktrees.selected_index matches Some(i) ==> (action is MoveDown && i + 1
            < app.ctx.worktrees.rows().len() ==> next.ctx.worktrees.selected_index == Some(
            (i + 1) as usize,
        )),
        app.ctx.worktrees.selected_index matches Some(i) ==> (action is MoveUp && 0 < i
            < app.ctx.worktrees.rows().len() ==> next.ctx.worktrees.selected_index == Some(
            (i - 1) as usize,
        )),
        action matches Action::InsertChar(c) ==> next.ctx.worktrees.filter.value@
            == app.ctx.worktrees.filter.value@.insert(app.ctx.worktrees.filter.cursor as int, c),
        next.ctx.worktrees.spaces == app.ctx.worktrees.spaces,
        next.selected_path == app.selected_path,
        next.modals == app.modals && next.background == app.background,
{
    law_the_spaces_are_moved_in_and_searched(app.ctx.worktrees, action, next.ctx.worktrees);
}

/// A pool brings a scan with it: every directory is walked from the start.
pub proof fn law_a_pool_brings_a_scan(app: App, worker: Worker, next: App)
    requires
        app.attached(worker, next),
        ({
            let work = Background {
                worker: Some(worker),
                in_flight: app.background.in_flight,
            };
            app.with_background(work).wf() && work@.has_ids(app.scan_roots@.len())
        }),
    ensures
        next.scan_found == 0,
        next.ctx.worktrees.spaces@.len() == 0,
        next.ctx.repositories.repositories@.len() == 0,
        next.background@.count(Kind::Scan) == app.scan_roots@.len(),
{
    let work = Background { worker: Some(worker), in_flight: app.background.in_flight };
    law_a_scan_walks_every_root_once(app.with_background(work), next);
}

/// A scan walks each configured directory in a job of its own, and leaves out what is
/// not to be walked; what it hands over comes after everything it gave up.
pub proof fn law_a_scan_leaves_out_what_is_excluded(app: App, next: App)
    requires
        app.scan_started(next),
    ensures
        exists|free: Effort, jobs: Seq<(Job, TrackedJob)>|
            {
                &&& next.background@ == #[trigger] free.with_jobs(jobs)
                &&& jobs.len() == app.scan_roots@.len()
                &&& forall|i: int|
                    0 <= i < jobs.len() ==> (#[trigger] jobs[i]).1 is Scan && (
                    jobs[i].0 matches Job::ScanRepositories { roots, excluded } && roots@
                        == seq![app.scan_roots@[i]] && excluded@ == app.excluded@)
            },
{
    let mid = choose|mid: App| #[trigger] app.emptied(mid) && next == mid.indicated();
    let effort = app.background@;
    let (unscanned, free, jobs) = choose|
        unscanned: Effort,
        free: Effort,
        jobs: Seq<(Job, TrackedJob)>,
    |
        #![trigger effort.without_kind(Kind::Scan, unscanned), unscanned.without_kind(Kind::Refresh, free), are_scans(jobs, app.scan_roots@, app.excluded@)]
        {
            &&& effort.without_kind(Kind::Scan, unscanned)
            &&& unscanned.without_kind(Kind::Refresh, free)
            &&& are_scans(jobs, app.scan_roots@, app.excluded@)
            &&& mid.background@ == free.with_jobs(jobs)
        };
    assert forall|i: int| 0 <= i < jobs.len() implies (#[trigger] jobs[i]).1 is Scan && (
    jobs[i].0 matches Job::ScanRepositories { roots, excluded } && roots@
        == seq![app.scan_roots@[i]] && excluded@ == app.excluded@) by {
        assert(is_scan(jobs[i], app.scan_roots@[i], app.excluded@));
    }
    assert(next.background@ == free.with_jobs(jobs));
}

/// A refresh reads every known repository again, each once and in order, and touches
/// neither the rows nor the repositories.
pub proof fn law_a_refresh_reads_every_repository_again(app: App, next: App)
    requires
        app.refresh_started(next),
        !app.scanning(),
    ensures
        exists|free: Effort|
            {
                let paths = first_paths(app.ctx.repositories.repositories@);
                &&& #[trigger] app.background@.without_kind(Kind::Refresh, free)
                &&& next.background@ == free.with_jobs(
                    Seq::new(
                        paths.len(),
                        |i: int| (Job::SpaceStatus { path: paths[i] }, TrackedJob::Refresh),
                    ),
                )
            },
        next.ctx.worktrees.spaces == app.ctx.worktrees.spaces,
        next.ctx.repositories == app.ctx.repositories,
        next.modals == app.modals,
{
    let mid = choose|mid: App| #[trigger] app.reread(mid) && next == mid.indicated();
    let paths = first_paths(app.ctx.repositories.repositories@);
    let free = choose|free: Effort|
        {
            &&& #[trigger] app.background@.without_kind(Kind::Refresh, free)
            &&& mid.background@ == free.with_jobs(rereads(paths))
        };
    assert(rereads(paths) =~= Seq::new(
        paths.len(),
        |i: int| (Job::SpaceStatus { path: paths[i] }, TrackedJob::Refresh),
    ));
    assert(app.background@.without_kind(Kind::Refresh, free));
}

/// What was read again takes the place of the rows of its repository, and what a scan
/// found joins the lists.
pub proof fn law_what_was_read_is_shown(
    app: App,
    kind: JobKind,
    outcome: Result<Completion, String>,
    next: App,
)
    requires
        app.applied(kind, outcome, next),
    ensures
        outcome matches Ok(Completion::Spaces { path, spaces }) ==> app.reread_of(
            path@,
            spaces@,
            next,
        ),
        outcome matches Ok(Completion::Repositories(found)) ==> app.found(found@, next),
        outcome matches Ok(Completion::Spaces { path, spaces }) ==> (
        app.ctx.repositories.repository_of(path@) is Some ==> next.ctx.worktrees.spaces@.len()
            >= spaces@.len()),
        outcome matches Ok(Completion::Repositories(found)) ==> next.scan_found == app.scan_found
            + first_paths(repos_of(found@)).len(),
{
}

} // verus!
