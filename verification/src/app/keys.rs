//! What a key does: to the stack, to the list beneath it, and to the work that
//! was left to be started.

use vstd::prelude::*;

use super::{App, PrFlow};
use crate::components::context::{AppContext, BackgroundWork, Effect, Modal, ModalFlow};
use crate::components::help::{worktrees_bindings, worktrees_table, HelpComponent, HelpEntry};
use crate::components::list::Focus;
use crate::components::notify::Severity;
use crate::components::pr_flow::resume_pr_flow;
use crate::components::pr_worktree::PrWorktreeComponent;
use crate::components::repositories::RepositoriesModal;
use crate::components::worktrees::WorktreesComponent;
use crate::components::{Action, EventState};
use crate::jobs::background::Effort;
use crate::jobs::in_flight::TrackedJob;
use crate::jobs::{Completion, Job};
use crate::keymap::{action_of, resolve, InputMode, KeyEvent};
use crate::text::{is_control, is_control_char, to_chars};

verus! {

/// Said where work cannot be started.
pub const NO_WORKER: &'static str = "no background worker is running";

/// A stack without its top.
pub open spec fn popped(modals: Seq<Modal>) -> Seq<Modal> {
    if modals.len() == 0 {
        modals
    } else {
        modals.drop_last()
    }
}

/// The stack after what a popup asked of it.
pub open spec fn stack_after(modals: Seq<Modal>, flow: ModalFlow) -> Seq<Modal> {
    match flow {
        ModalFlow::Consumed | ModalFlow::Ignored => modals,
        ModalFlow::Close => popped(modals),
        ModalFlow::Replace(modal) => popped(modals).push(modal),
    }
}

/// What a popup's answer means to the loop.
pub open spec fn state_of(flow: ModalFlow) -> EventState {
    if flow is Ignored {
        EventState::NotConsumed
    } else {
        EventState::Consumed
    }
}

// ---------------------------------------------------------------------------
// Work that was left to be started
// ---------------------------------------------------------------------------

/// The parts of the application that starting work changes.
pub struct Settling {
    pub effort: Effort,
    pub flow: Option<PrFlow>,
    pub modals: Seq<Modal>,
    pub news: Option<(Severity, Seq<char>, u64)>,
    /// Whether hooks were among the work.
    pub hooked: bool,
}

impl Settling {
    /// With the job given up that a pull request flow waited for.
    pub open spec fn unwaited(self) -> Settling {
        match self.flow {
            Some(flow) => Settling { effort: self.effort.without(flow.id), flow: None, ..self },
            None => self,
        }
    }

    /// After one piece of work. A new request takes the place of the one that was
    /// out; where there is no pool, the popup that waits is taken off.
    pub open spec fn after(self, work: BackgroundWork, now: u64) -> Settling {
        match work {
            BackgroundWork::Hooks(plan) => Settling {
                effort: self.effort.with_job(Job::RunHooks { plan }, TrackedJob::Hooks),
                hooked: true,
                ..self
            },
            BackgroundWork::Abandon => self.unwaited(),
            BackgroundWork::Routed { job, step } => {
                let free = self.unwaited();
                match free.effort.next() {
                    Some(id) => Settling {
                        effort: free.effort.with_job(job, TrackedJob::Routed),
                        flow: Some(PrFlow { id, step, depth: free.modals.len() as usize }),
                        ..free
                    },
                    None => Settling {
                        modals: popped(free.modals),
                        news: Some((Severity::Error, NO_WORKER@, now)),
                        ..free
                    },
                }
            },
        }
    }

    /// After several pieces of work, in order.
    pub open spec fn after_all(self, works: Seq<BackgroundWork>, now: u64) -> Settling
        decreases works.len(),
    {
        if works.len() == 0 {
            self
        } else {
            self.after_all(works.drop_last(), now).after(works.last(), now)
        }
    }
}

impl App {
    /// The parts of this application that starting work changes.
    pub open spec fn settling(self) -> Settling {
        Settling {
            effort: self.background@,
            flow: self.pr_flow,
            modals: self.modals@,
            news: self.ctx.notify@,
            hooked: false,
        }
    }

    /// Whether `next` holds exactly these parts.
    pub open spec fn is_settled(self, parts: Settling) -> bool {
        &&& self.background@ == parts.effort
        &&& self.pr_flow == parts.flow
        &&& self.modals@ == parts.modals
        &&& self.ctx.notify@ == parts.news
    }

    /// Whether `next` is this application with everything started that the popups
    /// left to be started.
    pub open spec fn pumped(self, next: App) -> bool {
        let parts = self.settling().after_all(self.ctx.background@, self.ctx.now);
        exists|mid: App|
            {
                &&& #[trigger] mid.is_settled(parts)
                &&& mid.ctx.background@.len() == 0
                &&& mid == (App {
                    background: mid.background,
                    pr_flow: mid.pr_flow,
                    modals: mid.modals,
                    ctx: AppContext {
                        notify: mid.ctx.notify,
                        background: mid.ctx.background,
                        ..self.ctx
                    },
                    ..self
                })
                &&& next == (if parts.hooked {
                    mid.indicated()
                } else {
                    mid
                })
            }
    }

    fn give_up_flow(&mut self)
        requires
            old(self).wf(),
        ensures
            final(self).wf(),
            final(self).is_settled(old(self).settling().unwaited()),
            final(self).modals == old(self).modals,
            final(self).ctx == old(self).ctx,
            *final(self) == (App {
                background: final(self).background,
                pr_flow: final(self).pr_flow,
                ..*old(self)
            }),
    {
        if let Some(flow) = self.pr_flow.take() {
            self.background.abandon(flow.id);
        }
    }

    /// Starts one piece of work. A request of the pull request flow supersedes
    /// the one that was out.
    fn start(&mut self, work: BackgroundWork)
        requires
            old(self).wf(),
        ensures
            final(self).wf(),
            final(self).is_settled(old(self).settling().after(work, old(self).ctx.now)),
            *final(self) == (App {
                background: final(self).background,
                pr_flow: final(self).pr_flow,
                modals: final(self).modals,
                ctx: AppContext { notify: final(self).ctx.notify, ..old(self).ctx },
                ..*old(self)
            }),
    {
        match work {
            BackgroundWork::Hooks(plan) => {
                self.background.submit(Job::RunHooks { plan }, TrackedJob::Hooks);
            },
            BackgroundWork::Abandon => self.give_up_flow(),
            BackgroundWork::Routed { job, step } => {
                self.give_up_flow();
                match self.background.submit(job, TrackedJob::Routed) {
                    Some(id) => {
                        let depth: usize = self.modals.len();
                        self.pr_flow = Some(PrFlow { id, step, depth });
                    },
                    None => {
                        self.modals.pop();
                        self.ctx.notify.error(NO_WORKER, self.ctx.now);
                    },
                }
            },
        }
    }

    /// Starts everything that the popups left to be started.
    pub(crate) fn pump(&mut self)
        requires
            old(self).wf(),
        ensures
            final(self).wf(),
            old(self).pumped(*final(self)),
    {
        let mut works: Vec<BackgroundWork> = Vec::new();
        std::mem::swap(&mut works, &mut self.ctx.background);
        let ghost all = works@;
        let ghost from = old(self).settling();
        let ghost now = self.ctx.now;
        let ghost mut done: int = 0;
        let mut hooked = false;
        assert(all.take(0) =~= Seq::<BackgroundWork>::empty());
        while works.len() > 0
            invariant
                self.wf(),
                0 <= done <= all.len(),
                works@ == all.skip(done),
                now == old(self).ctx.now,
                from == old(self).settling(),
                self.is_settled(from.after_all(all.take(done), now)),
                hooked == from.after_all(all.take(done), now).hooked,
                self.ctx.background@.len() == 0,
                *self == (App {
                    background: self.background,
                    pr_flow: self.pr_flow,
                    modals: self.modals,
                    ctx: AppContext {
                        notify: self.ctx.notify,
                        background: self.ctx.background,
                        ..old(self).ctx
                    },
                    ..*old(self)
                }),
            decreases works.len(),
        {
            let ghost before = from.after_all(all.take(done), now);
            let ghost here = *self;
            let work = works.remove(0);
            proof {
                assert(work == all[done]);
                assert(all.take(done + 1).drop_last() =~= all.take(done));
                assert(all.take(done + 1).last() == all[done]);
                assert(works@ =~= all.skip(done + 1));
                assert(from.after_all(all.take(done + 1), now) == before.after(work, now));
                done = done + 1;
            }
            if matches!(work, BackgroundWork::Hooks(_)) {
                hooked = true;
            }
            self.start(work);
            proof {
                let step = here.settling();
                assert(step == (Settling { hooked: false, ..before }));
                lemma_hooked_apart(before, work, now);
            }
        }
        assert(all.take(done) =~= all);
        let ghost mid = *self;
        assert(mid.is_settled(from.after_all(all, now)));
        if hooked {
            self.update_scan_indicator();
        }
    }

    // -----------------------------------------------------------------------
    // The stack
    // -----------------------------------------------------------------------

    fn apply_flow(&mut self, flow: ModalFlow) -> (state: EventState)
        requires
            old(self).wf(),
            flow matches ModalFlow::Replace(modal) ==> modal.wf(),
        ensures
            final(self).wf(),
            state == state_of(flow),
            final(self).modals@ == stack_after(old(self).modals@, flow),
            *final(self) == (App { modals: final(self).modals, ..*old(self) }),
    {
        match flow {
            ModalFlow::Consumed => EventState::Consumed,
            ModalFlow::Ignored => EventState::NotConsumed,
            ModalFlow::Close => {
                self.modals.pop();
                EventState::Consumed
            },
            ModalFlow::Replace(modal) => {
                self.modals.pop();
                self.modals.push(modal);
                EventState::Consumed
            },
        }
    }

    /// Whether a key was handed to the popup on top, and `next` is what came of
    /// it once the stack had settled.
    pub open spec fn dispatched(self, action: Action, state: EventState, next: App) -> bool {
        if self.modals@.len() == 0 {
            state is NotConsumed && next == self
        } else {
            exists|flow: ModalFlow, top: Modal, settled: App|
                {
                    &&& #[trigger] self.modals@.last().handled(
                        action,
                        self.ctx,
                        flow,
                        top,
                        settled.ctx,
                    )
                    &&& settled.modals@ == stack_after(self.modals@.drop_last().push(top), flow)
                    &&& settled == (App { modals: settled.modals, ctx: settled.ctx, ..self })
                    &&& state == state_of(flow)
                    &&& settled.pumped(next)
                }
        }
    }

    fn dispatch_to_top_modal(&mut self, action: Action) -> (state: EventState)
        requires
            old(self).wf(),
        ensures
            final(self).wf(),
            old(self).dispatched(action, state, *final(self)),
    {
        if self.modals.len() == 0 {
            return EventState::NotConsumed;
        }
        let mut top = match self.modals.pop() {
            Some(top) => top,
            None => return EventState::NotConsumed,
        };
        let ghost before = old(self).modals@;
        assert(top == before.last());
        assert(top.wf()) by {
            assert(before[before.len() - 1].wf());
        }
        let flow = top.handle(action, &mut self.ctx);
        self.modals.push(top);
        assert(self.wf()) by {
            assert forall|i: int| 0 <= i < self.modals@.len() implies (
            #[trigger] self.modals@[i]).wf() by {
                if i < before.len() - 1 {
                    assert(before[i].wf());
                }
            }
        }
        let ghost came = flow;
        let ghost left = top;
        let state = self.apply_flow(flow);
        let ghost settled = *self;
        assert(before.last().handled(action, old(self).ctx, came, left, settled.ctx));
        self.pump();
        state
    }

    /// Whether `next` is this application with the answer handed to the pull
    /// request flow that waited for it. What was opened over the waiting popup
    /// goes with it.
    pub open spec fn flow_resumed(self, outcome: Result<Completion, String>, next: App) -> bool {
        match self.pr_flow {
            None => next == self,
            Some(flow) => {
                let stack = if flow.depth <= self.modals@.len() {
                    self.modals@.subrange(0, flow.depth as int)
                } else {
                    self.modals@
                };
                exists|asked: ModalFlow, settled: App|
                    {
                        &&& #[trigger] self.ctx.resumed(flow.step, outcome, asked, settled.ctx)
                        &&& settled.modals@ == stack_after(stack, asked)
                        &&& settled == (App {
                            modals: settled.modals,
                            ctx: settled.ctx,
                            pr_flow: None::<PrFlow>,
                            ..self
                        })
                        &&& settled.pumped(next)
                    }
            },
        }
    }

    /// Hands a finished job back to the pull request flow that asked for it.
    pub fn resume_pr(&mut self, outcome: Result<Completion, String>)
        requires
            old(self).wf(),
        ensures
            final(self).wf(),
            old(self).flow_resumed(outcome, *final(self)),
    {
        let flow = match self.pr_flow.take() {
            Some(flow) => flow,
            None => return,
        };
        let ghost step = flow.step;
        let ghost before = self.modals@;
        self.modals.truncate(flow.depth);
        assert(self.wf()) by {
            assert forall|i: int| 0 <= i < self.modals@.len() implies (
            #[trigger] self.modals@[i]).wf() by {
                assert(before[i].wf());
            }
        }
        let asked = resume_pr_flow(&mut self.ctx, flow.step, outcome);
        let ghost came = asked;
        self.apply_flow(asked);
        let ghost settled = *self;
        assert(old(self).ctx.resumed(step, outcome, came, settled.ctx));
        self.pump();
    }

    // -----------------------------------------------------------------------
    // Help
    // -----------------------------------------------------------------------

    /// The keys of the layer on top.
    pub open spec fn keys_on_top(self) -> Seq<HelpEntry> {
        if self.modals@.len() == 0 {
            worktrees_table()
        } else {
            self.modals@.last().keys()
        }
    }

    /// Whether `next` is this application with a reference of those keys on top.
    pub open spec fn help_pushed(self, next: App) -> bool {
        &&& next.modals@.len() == self.modals@.len() + 1
        &&& next.modals@.drop_last() == self.modals@
        &&& next.modals@.last() matches Modal::Help(help)
        &&& help.entries@ == self.keys_on_top()
        &&& help.scroll == 0
        &&& help.viewport == 0
        &&& help.content == 0
        &&& next == (App { modals: next.modals, ..self })
    }

    /// What asking for help does: the reference closes itself, and over anything
    /// else it opens.
    pub open spec fn help_asked(self, next: App) -> bool {
        exists|state: EventState, mid: App|
            {
                &&& #[trigger] self.dispatched(Action::ShowHelp, state, mid)
                &&& if state is NotConsumed {
                    mid.help_pushed(next)
                } else {
                    next == mid
                }
            }
    }

    fn show_help(&mut self)
        requires
            old(self).wf(),
        ensures
            final(self).wf(),
            old(self).help_asked(*final(self)),
    {
        let state = self.dispatch_to_top_modal(Action::ShowHelp);
        let ghost mid = *self;
        assert(old(self).dispatched(Action::ShowHelp, state, mid));
        if !matches!(state, EventState::NotConsumed) {
            return;
        }
        let n: usize = self.modals.len();
        let entries = if n == 0 {
            worktrees_bindings()
        } else {
            self.modals[n - 1].help()
        };
        self.modals.push(Modal::Help(HelpComponent::new(entries)));
        assert(self.modals@.drop_last() =~= mid.modals@);
    }

    // -----------------------------------------------------------------------
    // The list
    // -----------------------------------------------------------------------

    /// Whether `next` is this application with one more popup.
    pub open spec fn is_pushed(self, next: App) -> bool {
        &&& next.modals@.len() == self.modals@.len() + 1
        &&& next.modals@.drop_last() == self.modals@
        &&& next == (App { modals: next.modals, ..self })
    }

    /// Whether `next` is this application with an empty prompt for a pull request
    /// on top.
    pub open spec fn pr_asked(self, auto: bool, next: App) -> bool {
        &&& self.is_pushed(next)
        &&& next.modals@.last() matches Modal::PrWorktree(prompt)
        &&& prompt.line() == (Seq::<char>::empty(), 0nat)
        &&& prompt.error is None
        &&& prompt.auto_clone == auto
        &&& prompt.waiting is None
    }

    /// Whether `next` is this application with the cost of deleting the selected
    /// space asked for. Without a selection there is nothing to ask.
    pub open spec fn risk_asked(self, forced: bool, next: App) -> bool {
        match self.ctx.worktrees.selected() {
            Some(entry) => {
                &&& self.ctx.asked(
                    Effect::AssessDeletion {
                        space: entry.space,
                        owner: self.ctx.repositories.owner_of(entry.space),
                        forced,
                    },
                    next.ctx,
                )
                &&& next == self.with_ctx(next.ctx)
            },
            None => next == self,
        }
    }

    fn ask_risk(&mut self, forced: bool)
        requires
            old(self).wf(),
        ensures
            final(self).wf(),
            old(self).risk_asked(forced, *final(self)),
    {
        if let Some(space) = self.ctx.worktrees.selected_space() {
            let owner = match self.ctx.repositories.backend_for(&space) {
                Some(repo) => Some(repo.clone()),
                None => None,
            };
            self.ctx.ask(Effect::AssessDeletion { space, owner, forced });
        }
    }

    /// This application in a mode, with the list focused to match.
    pub open spec fn focused(self, mode: InputMode, focus: Focus) -> App {
        App {
            mode,
            ctx: AppContext {
                worktrees: WorktreesComponent { focus, ..self.ctx.worktrees },
                ..self.ctx
            },
            ..self
        }
    }

    /// What a key does to the list.
    pub open spec fn list_handled(self, action: Action, state: EventState, next: App) -> bool {
        match action {
            Action::OpenRepositories => {
                &&& state is Consumed
                &&& next.modals@ == self.modals@.push(Modal::Repositories(RepositoriesModal::new()))
                &&& next == (App { modals: next.modals, ..self })
            },
            Action::OpenPrWorktree => state is Consumed && self.pr_asked(false, next),
            Action::OpenPrWorktreeAutoClone => state is Consumed && self.pr_asked(true, next),
            Action::ForceDelete => state is Consumed && self.risk_asked(true, next),
            Action::DeleteWithConfirmation => state is Consumed && self.risk_asked(false, next),
            Action::Refresh => state is Consumed && self.refresh_started(next),
            Action::Rescan => state is Consumed && self.scan_started(next),
            Action::FetchSelected => state is Consumed && self.fetch_started(next),
            Action::EnterInsertMode => state is Consumed && next == self.focused(
                InputMode::Insert,
                Focus::Filter,
            ),
            Action::ExitInsertMode => state is Consumed && next == self.focused(
                InputMode::Normal,
                Focus::List,
            ),
            Action::FocusNext => state is Consumed && next == (match self.ctx.worktrees.focus {
                Focus::Filter => self.focused(InputMode::Normal, Focus::List),
                Focus::List => self.focused(InputMode::Insert, Focus::Filter),
            }),
            _ => {
                let list = self.ctx.worktrees;
                &&& state == list.state_after(action)
                &&& list.after(action, next.ctx.worktrees)
                &&& match (state, list.selected()) {
                    (EventState::Exit, Some(entry)) => next.selected_path == Some(entry.space.path),
                    _ => next.selected_path == self.selected_path,
                }
                &&& next == (App {
                    selected_path: next.selected_path,
                    ..self.with_worktrees(next.ctx.worktrees)
                })
            },
        }
    }

    /// Acts on a key of the list. Forcing a deletion skips the question and never
    /// the guard: a space that holds work found nowhere else still raises it.
    pub fn handle_worktrees_action(&mut self, action: Action) -> (state: EventState)
        requires
            old(self).wf(),
        ensures
            final(self).wf(),
            old(self).list_handled(action, state, *final(self)),
    {
        match action {
            Action::OpenRepositories => {
                self.modals.push(Modal::Repositories(RepositoriesModal::new()));
                EventState::Consumed
            },
            Action::OpenPrWorktree => {
                self.modals.push(Modal::PrWorktree(PrWorktreeComponent::new(false)));
                assert(self.modals@.drop_last() =~= old(self).modals@);
                EventState::Consumed
            },
            Action::OpenPrWorktreeAutoClone => {
                self.modals.push(Modal::PrWorktree(PrWorktreeComponent::new(true)));
                assert(self.modals@.drop_last() =~= old(self).modals@);
                EventState::Consumed
            },
            Action::ForceDelete => {
                self.ask_risk(true);
                EventState::Consumed
            },
            Action::DeleteWithConfirmation => {
                self.ask_risk(false);
                EventState::Consumed
            },
            Action::Refresh => {
                self.start_refresh();
                EventState::Consumed
            },
            Action::Rescan => {
                self.start_scan();
                EventState::Consumed
            },
            Action::FetchSelected => {
                self.fetch_selected();
                EventState::Consumed
            },
            Action::EnterInsertMode => {
                self.mode = InputMode::Insert;
                self.ctx.worktrees.focus_filter();
                EventState::Consumed
            },
            Action::ExitInsertMode => {
                self.mode = InputMode::Normal;
                self.ctx.worktrees.focus_list();
                EventState::Consumed
            },
            Action::FocusNext => {
                self.ctx.worktrees.toggle_focus();
                self.mode = if self.ctx.worktrees.is_filter_focused() {
                    InputMode::Insert
                } else {
                    InputMode::Normal
                };
                EventState::Consumed
            },
            _ => {
                let ghost before = self.ctx.worktrees;
                let state = self.ctx.worktrees.handle_action(action);
                if matches!(state, EventState::Exit) {
                    assert(action is Select);
                    assert(self.ctx.worktrees == before);
                    self.selected_path = self.ctx.worktrees.selected_worktree_path();
                }
                state
            },
        }
    }

    // -----------------------------------------------------------------------
    // Keys
    // -----------------------------------------------------------------------

    /// Whether an action was handed to the layer on top.
    pub open spec fn acted(self, action: Action, state: EventState, next: App) -> bool {
        if self.modals@.len() == 0 {
            self.list_handled(action, state, next)
        } else {
            self.dispatched(action, state, next)
        }
    }

    fn act(&mut self, action: Action) -> (state: EventState)
        requires
            old(self).wf(),
        ensures
            final(self).wf(),
            old(self).acted(action, state, *final(self)),
    {
        if self.modals.len() == 0 {
            self.handle_worktrees_action(action)
        } else {
            self.dispatch_to_top_modal(action)
        }
    }

    /// What a key does.
    pub open spec fn key_handled(self, key: KeyEvent, state: EventState, next: App) -> bool {
        match action_of(self.mode_in_force(), key) {
            None => state is NotConsumed && next == self,
            Some(Action::Quit) => state is Exit && next == self,
            Some(Action::ShowHelp) => state is Consumed && self.help_asked(next),
            Some(action) => self.acted(action, state, next),
        }
    }

    /// Acts on a key. To quit and to ask for help work in every layer.
    pub fn handle_key(&mut self, key: KeyEvent) -> (state: EventState)
        requires
            old(self).wf(),
        ensures
            final(self).wf(),
            old(self).key_handled(key, state, *final(self)),
    {
        let action = match resolve(self.effective_mode(), key) {
            Some(action) => action,
            None => return EventState::NotConsumed,
        };
        match action {
            Action::Quit => EventState::Exit,
            Action::ShowHelp => {
                self.show_help();
                EventState::Consumed
            },
            _ => self.act(action),
        }
    }

    /// Whether `next` is this application after these characters were typed.
    pub open spec fn typed(self, chars: Seq<char>, next: App) -> bool
        decreases chars.len(),
    {
        if chars.len() == 0 {
            next == self
        } else {
            exists|mid: App, state: EventState|
                {
                    &&& self.typed(chars.drop_last(), mid)
                    &&& #[trigger] mid.acted(Action::InsertChar(chars.last()), state, next)
                }
        }
    }

    /// What a paste does: it is typed without its control characters, and only
    /// where there is something to type into.
    pub open spec fn pasted(self, text: Seq<char>, next: App) -> bool {
        if self.mode_in_force() == InputMode::Insert {
            self.typed(text.filter(|c: char| !is_control_char(c)), next)
        } else {
            next == self
        }
    }

    /// Types a paste into the field that has the focus. A URL copied with its
    /// trailing newline must not also press Enter.
    pub fn handle_paste(&mut self, text: &str)
        requires
            old(self).wf(),
        ensures
            final(self).wf(),
            old(self).pasted(text@, *final(self)),
    {
        if self.effective_mode() != InputMode::Insert {
            return;
        }
        let chars = to_chars(text);
        let ghost keep = |c: char| !is_control_char(c);
        let mut i: usize = 0;
        proof {
            reveal(Seq::filter);
        }
        assert(chars@.take(0).filter(keep) =~= Seq::<char>::empty());
        while i < chars.len()
            invariant
                self.wf(),
                i <= chars@.len(),
                keep == (|c: char| !is_control_char(c)),
                old(self).typed(chars@.take(i as int).filter(keep), *self),
            decreases chars.len() - i,
        {
            let ghost before = chars@.take(i as int).filter(keep);
            let ghost now = chars@.take(i + 1);
            let c = chars[i];
            proof {
                reveal(Seq::filter);
                assert(now.drop_last() =~= chars@.take(i as int));
                assert(now.last() == c);
            }
            if !is_control(c) {
                let ghost mid = *self;
                let state = self.act(Action::InsertChar(c));
                proof {
                    let all = now.filter(keep);
                    assert(all == before.push(c));
                    assert(all.drop_last() =~= before);
                    assert(old(self).typed(all.drop_last(), mid));
                    assert(mid.acted(Action::InsertChar(all.last()), state, *self));
                }
            }
            i = i + 1;
        }
        assert(chars@.take(i as int) =~= chars@);
    }
}

/// Whether hooks were among the work is apart from everything else.
proof fn lemma_hooked_apart(parts: Settling, work: BackgroundWork, now: u64)
    ensures
        ({
            let bare = Settling { hooked: false, ..parts }.after(work, now);
            let full = parts.after(work, now);
            &&& bare.effort == full.effort
            &&& bare.flow == full.flow
            &&& bare.modals == full.modals
            &&& bare.news == full.news
            &&& full.hooked == (parts.hooked || work is Hooks)
        }),
{
}

} // verus!
