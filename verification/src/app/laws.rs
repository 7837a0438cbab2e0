//! What holds of the application as a whole.

use vstd::prelude::*;

use super::answers::is_delete_dialog;
use super::keys::{popped, stack_after, state_of, Settling, NO_WORKER};
use super::scan::{are_scans, failure_text, is_scan, rereads};
use super::{App, PrFlow};
use crate::components::context::{BackgroundWork, Modal, ModalFlow};
use crate::components::notify::Severity;
use crate::components::repositories::first_paths;
use crate::components::{Action, EventState};
use crate::events::AppEvent;
use crate::jobs::background::{
    all_of, is_listing, law_a_round_is_given_up_whole, lemma_each_submission_counts,
    lemma_giving_up_hands_out_nothing, Effort,
};
use crate::jobs::in_flight::{fetching, of_kind, Kind, TrackedJob};
use crate::jobs::{Completion, Job, JobId, JobResult};
use crate::keymap::{action_of, InputMode, KeyEvent};
use crate::vcs::{DeletionRisk, Space};
use crate::{printed, Outcome};

verus! {

// ---------------------------------------------------------------------------
// Answers
// ---------------------------------------------------------------------------

/// An answer nobody waits for touches nothing, whatever it holds: it was given
/// up, or it has been taken in before.
pub proof fn law_a_stale_answer_changes_nothing(app: App, result: JobResult, next: App)
    requires
        app.job_handled(result, next),
        !app.background@.out.contains_key(result.id),
    ensures
        next == app,
{
}

/// An answer to a job that was given up is stale, also where it was on its way
/// already.
pub proof fn law_giving_up_makes_an_answer_stale(effort: Effort, id: JobId)
    ensures
        !effort.without(id).out.contains_key(id),
{
}

/// A job that failed says so, and leaves the lists alone.
pub proof fn law_a_failure_is_shown(app: App, result: JobResult, next: App)
    requires
        app.job_handled(result, next),
        app.background@.out.contains_key(result.id),
        !app.flow_waits_for(result.id),
        result.outcome is Err,
    ensures
        next.ctx.notify@ == Some(
            (
                Severity::Error,
                failure_text(result.kind, result.outcome->Err_0@),
                app.ctx.now,
            ),
        ),
        next.ctx.worktrees.spaces == app.ctx.worktrees.spaces,
        next.ctx.repositories == app.ctx.repositories,
        next.modals == app.modals,
{
}

/// A repository that has left the list is not put back by a late re-read.
pub proof fn law_a_removed_repository_stays_removed(
    app: App,
    path: Seq<char>,
    spaces: Seq<Space>,
    next: App,
)
    requires
        app.reread_of(path, spaces, next),
        app.ctx.repositories.repository_of(path) is None,
    ensures
        next == app,
{
}

// ---------------------------------------------------------------------------
// Scans, re-reads and fetches
// ---------------------------------------------------------------------------

/// A scan empties the lists, counts from zero, and walks each configured
/// directory once; nothing of an earlier scan or re-read is still out.
pub proof fn law_a_scan_walks_every_root_once(app: App, next: App)
    requires
        app.wf(),
        app.scan_started(next),
        app.background@.has_ids(app.scan_roots@.len()),
    ensures
        next.scan_found == 0,
        next.ctx.worktrees.spaces@.len() == 0,
        next.ctx.repositories.repositories@.len() == 0,
        next.background@.count(Kind::Scan) == app.scan_roots@.len(),
        next.background@.count(Kind::Refresh) == 0,
        next.scanning() <==> app.scan_roots@.len() > 0,
        next.scan_roots == app.scan_roots,
{
    let mid = choose|mid: App| #[trigger] app.emptied(mid) && next == mid.indicated();
    let effort = app.background@;
    let (unscanned, free, jobs) = choose|
        unscanned: Effort,
        free: Effort,
        jobs: Seq<(Job, TrackedJob)>,
    |
        #![trigger effort.without_kind(Kind::Scan, unscanned), unscanned.without_kind(Kind::Refresh, free), are_scans(jobs, app.scan_roots@, app.excluded@)]
        {
            &&& effort.without_kind(Kind::Scan, unscanned)
            &&& unscanned.without_kind(Kind::Refresh, free)
            &&& are_scans(jobs, app.scan_roots@, app.excluded@)
            &&& mid.background@ == free.with_jobs(jobs)
        };
    let n = app.scan_roots@.len();
    app.background.in_flight.lemma_finite();
    lemma_round_given_up(effort, Kind::Scan, unscanned, n);
    lemma_round_given_up(unscanned, Kind::Refresh, free, n);
    assert(of_kind(free.out, Kind::Scan) =~= Set::<JobId>::empty()) by {
        assert forall|id: JobId| !of_kind(free.out, Kind::Scan).contains(id) by {
            if free.out.contains_key(id) {
                assert(unscanned.out.contains_key(id) && free.out[id] == unscanned.out[id]);
                assert(!of_kind(unscanned.out, Kind::Scan).contains(id));
            }
        }
    }
    assert(all_of(jobs, Kind::Scan)) by {
        assert forall|i: int| 0 <= i < jobs.len() implies (#[trigger] jobs[i]).1.kind()
            == Kind::Scan by {
            assert(is_scan(jobs[i], app.scan_roots@[i], app.excluded@));
        }
    }
    lemma_each_submission_counts(free, jobs, Kind::Scan);
}

proof fn lemma_round_given_up(effort: Effort, kind: Kind, next: Effort, n: nat)
    requires
        effort.without_kind(kind, next),
        effort.is_ordered(),
        effort.has_ids(n),
        effort.out.dom().finite(),
    ensures
        next.is_ordered(),
        next.has_ids(n),
        next.out.dom().finite(),
        of_kind(next.out, kind) == Set::<JobId>::empty(),
        forall|id: JobId| #[trigger]
            next.out.contains_key(id) ==> effort.out.contains_key(id) && next.out[id]
                == effort.out[id],
        forall|id: JobId|
            effort.out.contains_key(id) && effort.out[id].kind() != kind
                ==> #[trigger] next.out.contains_key(id) && next.out[id] == effort.out[id],
{
    law_a_round_is_given_up_whole(effort, kind, next);
    let ids = choose|ids: Seq<JobId>| #[trigger]
        is_listing(ids, of_kind(effort.out, kind)) && next == effort.without_each(ids);
    lemma_giving_up_hands_out_nothing(effort, ids);
}

/// While a scan runs, a refresh does nothing: the scan reads everything again
/// already.
pub proof fn law_a_refresh_under_a_scan_does_nothing(app: App, next: App)
    requires
        app.refresh_started(next),
        app.scanning(),
    ensures
        next == app,
{
}

/// A refresh asks every known repository once, however many backends drive it,
/// and gives up the round that was out: two rounds never run together.
pub proof fn law_a_refresh_asks_every_repository_once(app: App, next: App)
    requires
        app.wf(),
        app.refresh_started(next),
        !app.scanning(),
        app.background@.has_ids(first_paths(app.ctx.repositories.repositories@).len()),
    ensures
        next.background@.count(Kind::Refresh) == first_paths(
            app.ctx.repositories.repositories@,
        ).len(),
        forall|id: JobId|
            of_kind(app.background@.out, Kind::Refresh).contains(id)
                ==> !#[trigger] next.background@.out.contains_key(id),
        !next.scanning(),
{
    let mid = choose|mid: App| #[trigger] app.reread(mid) && next == mid.indicated();
    let effort = app.background@;
    let paths = first_paths(app.ctx.repositories.repositories@);
    let jobs = rereads(paths);
    let free = choose|free: Effort|
        {
            &&& #[trigger] effort.without_kind(Kind::Refresh, free)
            &&& mid.background@ == free.with_jobs(jobs)
        };
    let n = paths.len();
    app.background.in_flight.lemma_finite();
    lemma_round_given_up(effort, Kind::Refresh, free, n);
    assert(all_of(jobs, Kind::Refresh));
    lemma_each_submission_counts(free, jobs, Kind::Refresh);
    assert(of_kind(next.background@.out, Kind::Scan) == of_kind(free.out, Kind::Scan));
    assert(of_kind(effort.out, Kind::Scan) =~= Set::<JobId>::empty()) by {
        vstd::set_lib::lemma_set_subset_finite(effort.out.dom(), of_kind(effort.out, Kind::Scan));
    }
    assert(of_kind(free.out, Kind::Scan) =~= Set::<JobId>::empty()) by {
        assert forall|id: JobId| !of_kind(free.out, Kind::Scan).contains(id) by {
            if free.out.contains_key(id) {
                assert(effort.out.contains_key(id) && free.out[id] == effort.out[id]);
                assert(!of_kind(effort.out, Kind::Scan).contains(id));
            }
        }
    }
    let ids = choose|ids: Seq<JobId>| #[trigger]
        is_listing(ids, of_kind(effort.out, Kind::Refresh)) && free == effort.without_each(ids);
    lemma_giving_up_hands_out_nothing(effort, ids);
    assert forall|id: JobId|
        of_kind(effort.out, Kind::Refresh).contains(id) implies !#[trigger] next.background@.out.contains_key(
        id,
    ) by {
        assert(!of_kind(free.out, Kind::Refresh).contains(id));
        assert(id.number < effort.pool->0.next_id);
        if free.out.contains_key(id) {
            assert(free.out[id] == effort.out[id]);
        }
        lemma_old_ids_are_not_reused(free, jobs, id);
    }
}

proof fn lemma_old_ids_are_not_reused(effort: Effort, jobs: Seq<(Job, TrackedJob)>, id: JobId)
    requires
        effort.is_ordered(),
        effort.has_ids(jobs.len()),
        effort.out.dom().finite(),
        id.number < effort.pool->0.next_id,
        !effort.out.contains_key(id),
    ensures
        !effort.with_jobs(jobs).out.contains_key(id),
        effort.with_jobs(jobs).has_ids(0),
        effort.with_jobs(jobs).pool->0.next_id == effort.pool->0.next_id + jobs.len(),
    decreases jobs.len(),
{
    if jobs.len() > 0 {
        lemma_old_ids_are_not_reused(effort, jobs.drop_last(), id);
    }
}

/// Asking twice to fetch one repository asks its remotes once.
pub proof fn law_a_repository_is_fetched_once(app: App, mid: App, next: App)
    requires
        app.fetch_started(mid),
        mid.fetch_started(next),
        app.background@.pool is Some,
        app.ctx.worktrees.selected() matches Some(entry) && app.ctx.repositories.owner_of(
            entry.space,
        ) is Some,
    ensures
        next == mid,
{
    let entry = app.ctx.worktrees.selected()->0;
    let repo = app.ctx.repositories.owner_of(entry.space)->0;
    assert(mid.ctx.worktrees.selected() == Some(entry));
    if !fetching(app.background@.out, repo.path@) {
        let id = app.background@.next()->0;
        assert(mid.background@.out.contains_key(id));
        assert(mid.background@.out[id] == TrackedJob::Fetch(repo.path));
        assert(fetching(mid.background@.out, repo.path@));
    }
}

// ---------------------------------------------------------------------------
// Keys
// ---------------------------------------------------------------------------

/// To quit works in every layer, and changes nothing.
pub proof fn law_quit_works_everywhere(app: App, key: KeyEvent, state: EventState, next: App)
    requires
        app.key_handled(key, state, next),
        action_of(app.mode_in_force(), key) == Some(Action::Quit),
    ensures
        state is Exit,
        next == app,
{
}

/// A session that is quit picks nothing: no path is printed for the shell to
/// follow.
pub proof fn law_a_quit_picks_nothing(
    app: App,
    key: KeyEvent,
    outcome: Option<Outcome>,
    next: App,
)
    requires
        app.event_handled(AppEvent::Key(key), outcome, next),
        app.selected_path is None,
        action_of(app.mode_in_force(), key) == Some(Action::Quit),
    ensures
        outcome == Some(Outcome::Quit),
        printed(outcome->0) is None,
{
}

/// A space that was picked is the one the user was on.
pub proof fn law_a_pick_is_the_selected_space(
    app: App,
    key: KeyEvent,
    outcome: Option<Outcome>,
    next: App,
)
    requires
        app.event_handled(AppEvent::Key(key), outcome, next),
        app.modals@.len() == 0,
        action_of(app.mode, key) == Some(Action::Select),
    ensures
        match app.ctx.worktrees.selected() {
            Some(entry) => outcome == Some(Outcome::Selected(entry.space.path)),
            None => outcome is None,
        },
{
}

/// Nothing but a key ends a session.
pub proof fn law_only_a_key_ends_a_session(
    app: App,
    event: AppEvent,
    outcome: Option<Outcome>,
    next: App,
)
    requires
        app.event_handled(event, outcome, next),
        outcome is Some,
    ensures
        event is Key,
{
}

/// A paste presses no key: where nothing is being typed it does nothing.
pub proof fn law_a_paste_is_no_command(app: App, text: Seq<char>, next: App)
    requires
        app.pasted(text, next),
        app.mode_in_force() != InputMode::Insert,
    ensures
        next == app,
{
}

/// Taking a popup off brings back the mode of the layer beneath it.
pub proof fn law_closing_restores_the_mode(app: App, closed: App)
    requires
        app.modals@.len() > 0,
        closed.modals@ == popped(app.modals@),
        closed.mode == app.mode,
    ensures
        closed.mode_in_force() == (if app.modals@.len() == 1 {
            app.mode
        } else {
            app.modals@[app.modals@.len() - 2].mode()
        }),
{
}

/// Help opens over whatever is on top, and asked for again it closes: the stack
/// is as tall as before, and every layer beneath its top is the same.
pub proof fn law_help_is_a_toggle(app: App, opened: App, closed: App)
    requires
        app.help_asked(opened),
        opened.help_asked(closed),
        app.ctx.background@.len() == 0,
        app.modals@.len() > 0 ==> !(app.modals@.last() is Help),
    ensures
        opened.modals@.len() == app.modals@.len() + 1,
        opened.modals@.last() is Help,
        closed.modals@.len() == app.modals@.len(),
        app.modals@.len() == 0 ==> closed.modals@ == app.modals@,
        app.modals@.len() > 0 ==> closed.modals@.drop_last() == app.modals@.drop_last(),
{
    let (state, mid) = choose|state: EventState, mid: App|
        {
            &&& #[trigger] app.dispatched(Action::ShowHelp, state, mid)
            &&& if state is NotConsumed {
                mid.help_pushed(opened)
            } else {
                opened == mid
            }
        };
    if app.modals@.len() > 0 {
        lemma_help_is_ignored(app, state, mid);
    }
    let (state2, mid2) = choose|state: EventState, mid: App|
        {
            &&& #[trigger] opened.dispatched(Action::ShowHelp, state, mid)
            &&& if state is NotConsumed {
                mid.help_pushed(closed)
            } else {
                closed == mid
            }
        };
    lemma_help_closes(opened, state2, mid2);
    assert(opened.modals@.drop_last() == mid.modals@);
}

proof fn lemma_help_is_ignored(app: App, state: EventState, next: App)
    requires
        app.dispatched(Action::ShowHelp, state, next),
        app.ctx.background@.len() == 0,
        app.modals@.len() > 0,
        !(app.modals@.last() is Help),
    ensures
        state is NotConsumed,
        next.modals@.len() == app.modals@.len(),
        next.modals@.drop_last() == app.modals@.drop_last(),
        next.ctx.background@.len() == 0,
{
    let (flow, top, settled) = choose|
        flow: ModalFlow,
        top: Modal,
        settled: App,
    |
        {
            &&& #[trigger] app.modals@.last().handled(
                Action::ShowHelp,
                app.ctx,
                flow,
                top,
                settled.ctx,
            )
            &&& settled.modals@ == stack_after(
                app.modals@.drop_last().push(top),
                flow,
            )
            &&& settled == (App { modals: settled.modals, ctx: settled.ctx, ..app })
            &&& state == state_of(flow)
            &&& settled.pumped(next)
        };
    assert(flow is Ignored);
    assert(settled.ctx.background@.len() == 0);
    lemma_nothing_to_start(settled, next);
    assert(settled.modals@.drop_last() =~= app.modals@.drop_last());
}

proof fn lemma_help_closes(app: App, state: EventState, next: App)
    requires
        app.dispatched(Action::ShowHelp, state, next),
        app.ctx.background@.len() == 0,
        app.modals@.len() > 0,
        app.modals@.last() is Help,
    ensures
        state is Consumed,
        next.modals@ == app.modals@.drop_last(),
{
    let (flow, top, settled) = choose|
        flow: ModalFlow,
        top: Modal,
        settled: App,
    |
        {
            &&& #[trigger] app.modals@.last().handled(
                Action::ShowHelp,
                app.ctx,
                flow,
                top,
                settled.ctx,
            )
            &&& settled.modals@ == stack_after(
                app.modals@.drop_last().push(top),
                flow,
            )
            &&& settled == (App { modals: settled.modals, ctx: settled.ctx, ..app })
            &&& state == state_of(flow)
            &&& settled.pumped(next)
        };
    lemma_nothing_to_start(settled, next);
    assert(settled.modals@ =~= app.modals@.drop_last());
}

proof fn lemma_nothing_to_start(app: App, next: App)
    requires
        app.pumped(next),
        app.ctx.background@.len() == 0,
    ensures
        next.modals@ == app.modals@,
        next.background@ == app.background@,
        next.pr_flow == app.pr_flow,
        next.ctx.background@.len() == 0,
{
    let parts = app.settling().after_all(app.ctx.background@, app.ctx.now);
    assert(parts == app.settling());
}

// ---------------------------------------------------------------------------
// The pull request flow
// ---------------------------------------------------------------------------

/// Walking away from a wait gives the job up: its answer is not wanted any more,
/// and no flow waits for it.
pub proof fn law_leaving_a_wait_gives_the_job_up(parts: Settling, flow: PrFlow, now: u64)
    requires
        parts.flow == Some(flow),
    ensures
        parts.after(BackgroundWork::Abandon, now).flow is None,
        !parts.after(BackgroundWork::Abandon, now).effort.out.contains_key(flow.id),
{
}

/// At most one job of the flow is out: a new request gives up the one before it.
pub proof fn law_a_request_supersedes_the_last(
    parts: Settling,
    flow: PrFlow,
    work: BackgroundWork,
    now: u64,
)
    requires
        parts.flow == Some(flow),
        work is Routed,
        parts.effort.is_ordered(),
        parts.effort.has_ids(1),
        parts.effort.out.contains_key(flow.id),
    ensures
        !parts.after(work, now).effort.out.contains_key(flow.id),
        parts.after(work, now).flow matches Some(next) && next.id != flow.id,
        parts.after(work, now).effort.is_ordered(),
{
}

/// Where there is no pool nothing is left waiting for a job that does not exist:
/// the popup goes, and the user is told.
pub proof fn law_nothing_waits_without_a_pool(parts: Settling, work: BackgroundWork, now: u64)
    requires
        parts.effort.pool is None,
        work is Routed,
    ensures
        parts.after(work, now).flow is None,
        parts.after(work, now).modals == popped(parts.modals),
        parts.after(work, now).news == Some(
            (Severity::Error, NO_WORKER@, now),
        ),
{
}

/// The answer to a lookup that failed puts the user back in front of what they
/// typed, with the reason.
pub proof fn law_a_failed_lookup_reopens_the_prompt(
    app: App,
    flow: PrFlow,
    error: String,
    next: App,
)
    requires
        app.flow_resumed(Err::<Completion, String>(error), next),
        app.pr_flow == Some(flow),
        flow.step.stage is Lookup,
        0 < flow.depth <= app.modals@.len(),
        app.ctx.background@.len() == 0,
    ensures
        next.modals@.len() == flow.depth,
        next.modals@.last() matches Modal::PrWorktree(prompt) && prompt.input
            == flow.step.flow.typed && prompt.error == Some(error) && prompt.waiting is None,
        next.pr_flow is None,
{
    let stack = app.modals@.subrange(0, flow.depth as int);
    let (asked, settled) = choose|
        asked: ModalFlow,
        settled: App,
    |
        {
            &&& #[trigger] app.ctx.resumed(
                flow.step,
                Err::<Completion, String>(error),
                asked,
                settled.ctx,
            )
            &&& settled.modals@ == stack_after(stack, asked)
            &&& settled == (App {
                modals: settled.modals,
                ctx: settled.ctx,
                pr_flow: None::<PrFlow>,
                ..app
            })
            &&& settled.pumped(next)
        };
    lemma_nothing_to_start(settled, next);
}

// ---------------------------------------------------------------------------
// Deletion
// ---------------------------------------------------------------------------

/// Forcing a deletion skips the question, never the guard: while anything is at
/// risk a dialog goes up and nothing is deleted.
pub proof fn law_a_guarded_space_is_never_deleted_unasked(
    app: App,
    space: Space,
    risk: DeletionRisk,
    forced: bool,
    next: App,
)
    requires
        app.risk_known(space, risk, forced, next),
        !risk.is_safe(),
    ensures
        next.ctx == app.ctx,
        next.modals@.len() == app.modals@.len() + 1,
        next.modals@.last() matches Modal::Confirm(dialog) && is_delete_dialog(
            dialog,
            space,
            risk,
        ) && !dialog.gate.opens() || space.name@.len() == 0,
{
}

/// A space that could not be deleted keeps its row, and the reason is shown.
pub proof fn law_a_failed_deletion_keeps_the_row(
    app: App,
    path: Seq<char>,
    error: String,
    next: App,
)
    requires
        app.ctx.deleted(path, Err::<(), String>(error), next.ctx),
    ensures
        next.ctx.worktrees == app.ctx.worktrees,
        next.ctx.notify@ == Some(
            (Severity::Error, error@, app.ctx.now),
        ),
{
}

} // verus!
