//! What every popup answers to: its place, its mode, its keys, and what a key
//! does to it, to the shared state and to the stack.

use vstd::prelude::*;

use crate::components::confirm::{Answer, Work};
use crate::components::context::{AppContext, BackgroundWork, Effect, Modal, ModalFlow};
use crate::components::create_worktree::{CreateWorktreeComponent, Naming};
use crate::components::help::{scrolls, HelpEntry};
use crate::components::list::Focus;
use crate::components::modal::ModalKind;
use crate::components::pr_worktree::{Asked, PrStep, Stage};
use crate::components::repositories::{
    backends_on, repositories_bindings, repositories_table, RepositoriesComponent,
    RepositoriesModal,
};
use crate::components::select_directory::{
    select_directory_bindings, select_directory_table, Choice,
};
use crate::components::{Action, EventState};
use crate::github::opt_text;
use crate::jobs::Job;
use crate::keymap::InputMode;
use crate::vcs::Backend;

verus! {

/// What a key that a popup's own list took or left comes to.
pub open spec fn flow_of(state: EventState) -> ModalFlow {
    if state is Consumed {
        ModalFlow::Consumed
    } else {
        ModalFlow::Ignored
    }
}

impl ModalFlow {
    /// No list inside a popup asks to quit: only the stack decides that.
    pub fn from_state(state: EventState) -> (flow: ModalFlow)
        ensures
            flow == flow_of(state),
    {
        match state {
            EventState::Consumed => ModalFlow::Consumed,
            _ => ModalFlow::Ignored,
        }
    }
}

// ---------------------------------------------------------------------------
// The repository picker
// ---------------------------------------------------------------------------

impl RepositoriesModal {
    /// What a key does in the repository picker.
    pub open spec fn handled(
        self,
        action: Action,
        ctx: AppContext,
        flow: ModalFlow,
        modal: RepositoriesModal,
        next: AppContext,
    ) -> bool {
        let list = ctx.repositories;
        match action {
            Action::Select => {
                &&& modal == self
                &&& next == ctx
                &&& flow matches ModalFlow::Replace(Modal::CreateWorktree(prompt))
                &&& prompt.warning is None
                &&& prompt.pr_url is None
                &&& match list.selected() {
                    Some(repo) => prompt.is_for(
                        repo.name@,
                        repo.backend,
                        backends_on(list.repositories@, repo.id@).len() > 1,
                        Seq::empty(),
                    ),
                    None => prompt.is_for(Seq::empty(), Backend::Git, false, Seq::empty()),
                }
            },
            Action::ClosePopup => flow is Close && modal == self && next == ctx,
            Action::EnterInsertMode => {
                &&& flow is Consumed
                &&& modal.mode == InputMode::Insert
                &&& next.repositories.focus is Filter
                &&& next == ctx.with_focus(next.repositories.focus)
            },
            Action::ExitInsertMode => {
                &&& flow is Consumed
                &&& modal.mode == InputMode::Normal
                &&& next.repositories.focus is List
                &&& next == ctx.with_focus(next.repositories.focus)
            },
            Action::FocusNext => {
                &&& flow is Consumed
                &&& next.repositories.focus is Filter <==> list.focus is List
                &&& modal.mode == (if next.repositories.focus is Filter {
                    InputMode::Insert
                } else {
                    InputMode::Normal
                })
                &&& next == ctx.with_focus(next.repositories.focus)
            },
            _ => {
                &&& modal == self
                &&& list.after(action, next.repositories)
                &&& next == ctx.with_repositories(next.repositories)
                &&& flow == flow_of(list.state_after(action))
            },
        }
    }

    /// Acts on a key. A chosen repository is followed by the prompt for a name,
    /// which takes the picker's place: to cancel it does not bring the picker
    /// back.
    pub fn handle(&mut self, action: Action, ctx: &mut AppContext) -> (flow: ModalFlow)
        requires
            old(ctx).wf(),
        ensures
            final(ctx).wf(),
            old(self).handled(action, *old(ctx), flow, *final(self), *final(ctx)),
            flow matches ModalFlow::Replace(modal) ==> modal.wf(),
    {
        match action {
            Action::Select => {
                let prompt = match ctx.repositories.selected_repository() {
                    Some(repo) => {
                        let colocated = ctx.repositories.backends_of(&repo.id).len() > 1;
                        CreateWorktreeComponent::new(repo.name.clone(), repo.backend, colocated)
                    },
                    None => {
                        let none = String::new();
                        assert(none@ =~= Seq::<char>::empty());
                        CreateWorktreeComponent::new(none, Backend::Git, false)
                    },
                };
                ModalFlow::Replace(Modal::CreateWorktree(prompt))
            },
            Action::ClosePopup => ModalFlow::Close,
            Action::EnterInsertMode => {
                self.mode = InputMode::Insert;
                ctx.repositories.focus_filter();
                ModalFlow::Consumed
            },
            Action::ExitInsertMode => {
                self.mode = InputMode::Normal;
                ctx.repositories.focus_list();
                ModalFlow::Consumed
            },
            Action::FocusNext => {
                ctx.repositories.toggle_focus();
                self.mode = if ctx.repositories.is_filter_focused() {
                    InputMode::Insert
                } else {
                    InputMode::Normal
                };
                ModalFlow::Consumed
            },
            _ => ModalFlow::from_state(ctx.repositories.handle_action(action)),
        }
    }
}

// ---------------------------------------------------------------------------
// The name prompt
// ---------------------------------------------------------------------------

impl CreateWorktreeComponent {
    /// What a key does in the name prompt.
    pub open spec fn handled(
        self,
        action: Action,
        ctx: AppContext,
        flow: ModalFlow,
        modal: CreateWorktreeComponent,
        next: AppContext,
    ) -> bool {
        exists|naming: Naming, typed: CreateWorktreeComponent|
            {
                &&& #[trigger] self.answer(action, naming)
                &&& #[trigger] self.typed_after(action, typed)
                &&& match naming {
                    Naming::Consumed => false,
                    Naming::Ignored => flow is Ignored && modal == typed && next == ctx,
                    Naming::Close => flow is Close && modal == typed && next == ctx,
                    Naming::Renamed => {
                        &&& flow is Consumed
                        &&& modal == (CreateWorktreeComponent { base_branch_hint: None, ..typed })
                        &&& match ctx.repositories.selected_through(typed.backend) {
                            Some(repo) => if typed.new_worktree_name@.len() == 0 {
                                next == ctx
                            } else {
                                ctx.asked(
                                    Effect::ResolveBase { repo, name: typed.new_worktree_name },
                                    next,
                                )
                            },
                            None => next == ctx,
                        }
                    },
                    Naming::Create { name, backend, pr_url } => {
                        &&& flow is Close
                        &&& modal == typed
                        &&& ctx.wanted(
                            ctx.repositories.selected_through(backend),
                            name@,
                            opt_text(pr_url),
                            false,
                            None,
                            next,
                        )
                    },
                }
            }
    }

    /// Acts on a key. The base depends on the name and on the backend, so it is
    /// asked for again after every change of either.
    pub fn handle_in(&mut self, action: Action, ctx: &mut AppContext) -> (flow: ModalFlow)
        requires
            old(self).wf(),
            old(ctx).wf(),
        ensures
            final(self).wf(),
            final(ctx).wf(),
            old(self).handled(action, *old(ctx), flow, *final(self), *final(ctx)),
            !(flow is Replace),
    {
        let naming = self.handle(action);
        assert(old(self).answer(action, naming));
        assert(old(self).typed_after(action, *self));
        match naming {
            Naming::Consumed => ModalFlow::Consumed,
            Naming::Ignored => ModalFlow::Ignored,
            Naming::Close => ModalFlow::Close,
            Naming::Renamed => {
                self.set_base_hint(None);
                if !self.new_worktree_name.as_str().is_empty() {
                    if let Some(repo) = ctx.repositories.selected_backend(self.backend) {
                        let repo = repo.clone();
                        let name = self.new_worktree_name.clone();
                        ctx.ask(Effect::ResolveBase { repo, name });
                    }
                }
                ModalFlow::Consumed
            },
            Naming::Create { name, backend, pr_url } => {
                ctx.create_space_via(name.as_str(), backend, pr_url);
                ModalFlow::Close
            },
        }
    }
}

// ---------------------------------------------------------------------------
// Every popup
// ---------------------------------------------------------------------------

impl AppContext {
    /// This context with the focus of the repository list elsewhere.
    pub open spec fn with_focus(self, focus: Focus) -> AppContext {
        self.with_repositories(
            RepositoriesComponent { focus, ..self.repositories },
        )
    }

    /// What a confirmed piece of work comes to.
    pub open spec fn confirmed(self, work: Work, flow: ModalFlow, next: AppContext) -> bool {
        match work {
            Work::DeleteSpace => flow is Close && self.deletion_wanted(next),
            Work::Clone { url, info, flow: of } => self.clone_decided(url, info, of, flow, next),
        }
    }

    fn confirm(&mut self, work: Work) -> (flow: ModalFlow)
        requires
            old(self).wf(),
        ensures
            final(self).wf(),
            old(self).confirmed(work, flow, *final(self)),
            flow matches ModalFlow::Replace(modal) ==> modal.wf(),
    {
        match work {
            Work::DeleteSpace => {
                self.delete_selected();
                ModalFlow::Close
            },
            Work::Clone { url, info, flow } => self.clone_flow(url, info, flow),
        }
    }
}

impl Modal {
    pub open spec fn wf(self) -> bool {
        match self {
            Modal::CreateWorktree(prompt) => prompt.wf(),
            Modal::PrWorktree(prompt) => prompt.wf(),
            Modal::SelectReposDir(picker) => picker.wf(),
            _ => true,
        }
    }

    /// Which popup this is.
    #[verifier::allow_in_spec]
    pub fn kind(&self) -> ModalKind
        returns
            (match self {
                Modal::Repositories(_) => ModalKind::Repositories,
                Modal::CreateWorktree(_) => ModalKind::CreateWorktree,
                Modal::Confirm(_) => ModalKind::Confirm,
                Modal::Help(_) => ModalKind::Help,
                Modal::PrWorktree(_) => ModalKind::PrWorktree,
                Modal::SelectReposDir(_) => ModalKind::SelectReposDir,
            }),
    {
        match self {
            Modal::Repositories(_) => ModalKind::Repositories,
            Modal::CreateWorktree(_) => ModalKind::CreateWorktree,
            Modal::Confirm(_) => ModalKind::Confirm,
            Modal::Help(_) => ModalKind::Help,
            Modal::PrWorktree(_) => ModalKind::PrWorktree,
            Modal::SelectReposDir(_) => ModalKind::SelectReposDir,
        }
    }

    /// The input mode in force while this popup is on top.
    #[verifier::allow_in_spec]
    pub fn mode(&self) -> InputMode
        returns
            (match self {
                Modal::Repositories(modal) => modal.mode,
                Modal::CreateWorktree(prompt) => prompt.mode(),
                Modal::Confirm(dialog) => dialog.mode(),
                Modal::Help(_) => InputMode::Normal,
                Modal::PrWorktree(prompt) => prompt.mode(),
                Modal::SelectReposDir(_) => InputMode::Normal,
            }),
    {
        match self {
            Modal::Repositories(modal) => modal.mode,
            Modal::CreateWorktree(prompt) => prompt.mode(),
            Modal::Confirm(dialog) => dialog.mode(),
            Modal::Help(_) => InputMode::Normal,
            Modal::PrWorktree(prompt) => prompt.mode(),
            Modal::SelectReposDir(_) => InputMode::Normal,
        }
    }

    /// The keys of this popup.
    pub open spec fn keys(self) -> Seq<HelpEntry> {
        match self {
            Modal::Repositories(_) => repositories_table(),
            Modal::CreateWorktree(prompt) => prompt.keys(),
            Modal::Confirm(dialog) => dialog.keys(),
            Modal::Help(_) => Seq::empty(),
            Modal::PrWorktree(prompt) => prompt.keys(),
            Modal::SelectReposDir(_) => select_directory_table(),
        }
    }

    /// The keys shown when help is opened over this popup.
    pub fn help(&self) -> (entries: Vec<HelpEntry>)
        ensures
            entries@ == self.keys(),
    {
        match self {
            Modal::Repositories(_) => repositories_bindings(),
            Modal::CreateWorktree(prompt) => prompt.help(),
            Modal::Confirm(dialog) => dialog.help(),
            Modal::Help(_) => Vec::new(),
            Modal::PrWorktree(prompt) => prompt.help(),
            Modal::SelectReposDir(_) => select_directory_bindings(),
        }
    }

    /// What a key does to this popup, to the shared state and to the stack.
    pub open spec fn handled(
        self,
        action: Action,
        ctx: AppContext,
        flow: ModalFlow,
        modal: Modal,
        next: AppContext,
    ) -> bool {
        match (self, modal) {
            (Modal::Repositories(old), Modal::Repositories(new)) => old.handled(
                action,
                ctx,
                flow,
                new,
                next,
            ),
            (Modal::CreateWorktree(old), Modal::CreateWorktree(new)) => old.handled(
                action,
                ctx,
                flow,
                new,
                next,
            ),
            (Modal::Confirm(old), Modal::Confirm(new)) => {
                &&& old.answered(action, new)
                &&& match old.after(action) {
                    Answer::Consumed => flow is Consumed && next == ctx,
                    Answer::Ignored => flow is Ignored && next == ctx,
                    Answer::Close => flow is Close && next == ctx,
                    Answer::Run(work) => ctx.confirmed(work, flow, next),
                }
            },
            (Modal::Help(old), Modal::Help(new)) => {
                &&& next == ctx
                &&& match action {
                    Action::ClosePopup | Action::ExitInsertMode | Action::ShowHelp => flow is Close
                        && new == old,
                    _ => new == old.after(action) && flow == (if scrolls(action) {
                        ModalFlow::Consumed
                    } else {
                        ModalFlow::Ignored
                    }),
                }
            },
            (Modal::PrWorktree(old), Modal::PrWorktree(new)) => exists|asked: Asked|
                {
                    &&& #[trigger] old.answer(action, asked, new)
                    &&& match asked {
                        Asked::Consumed => flow is Consumed && next == ctx,
                        Asked::Ignored => flow is Ignored && next == ctx,
                        Asked::Close => flow is Close && next == ctx,
                        Asked::Abandon => flow is Close && ctx.raised(
                            BackgroundWork::Abandon,
                            next,
                        ),
                        Asked::Lookup { url, flow: of } => flow is Consumed && ctx.raised(
                            BackgroundWork::Routed {
                                job: Job::FetchPullRequest { url },
                                step: PrStep { stage: Stage::Lookup { url }, flow: of },
                            },
                            next,
                        ),
                    }
                },
            (Modal::SelectReposDir(old), Modal::SelectReposDir(new)) => {
                &&& new == old.after(action)
                &&& exists|choice: Choice|
                    {
                        &&& #[trigger] old.answer(action, choice)
                        &&& match choice {
                            Choice::Consumed => flow is Consumed && next == ctx,
                            Choice::Ignored => flow is Ignored && next == ctx,
                            Choice::Close => flow is Close && next == ctx,
                            Choice::Picked(dir, request) => ctx.clone_started(
                                dir,
                                request.url,
                                request.info,
                                request.flow,
                                flow,
                                next,
                            ),
                        }
                    }
            },
            _ => false,
        }
    }

    /// Hands a key to this popup.
    pub fn handle(&mut self, action: Action, ctx: &mut AppContext) -> (flow: ModalFlow)
        requires
            old(self).wf(),
            old(ctx).wf(),
        ensures
            final(self).wf(),
            final(ctx).wf(),
            old(self).handled(action, *old(ctx), flow, *final(self), *final(ctx)),
            flow matches ModalFlow::Replace(modal) ==> modal.wf(),
    {
        match self {
            Modal::Repositories(modal) => modal.handle(action, ctx),
            Modal::CreateWorktree(prompt) => prompt.handle_in(action, ctx),
            Modal::Confirm(dialog) => match dialog.handle(action) {
                Answer::Consumed => ModalFlow::Consumed,
                Answer::Ignored => ModalFlow::Ignored,
                Answer::Close => ModalFlow::Close,
                Answer::Run(work) => ctx.confirm(work),
            },
            Modal::Help(help) => match action {
                Action::ClosePopup | Action::ExitInsertMode | Action::ShowHelp => ModalFlow::Close,
                _ => ModalFlow::from_state(help.handle_action(action)),
            },
            Modal::PrWorktree(prompt) => match prompt.handle(action) {
                Asked::Consumed => ModalFlow::Consumed,
                Asked::Ignored => ModalFlow::Ignored,
                Asked::Close => ModalFlow::Close,
                Asked::Abandon => {
                    ctx.run_in_background(BackgroundWork::Abandon);
                    ModalFlow::Close
                },
                Asked::Lookup { url, flow } => {
                    let job = Job::FetchPullRequest { url: url.clone() };
                    let step = PrStep { stage: Stage::Lookup { url }, flow };
                    ctx.run_in_background(BackgroundWork::Routed { job, step });
                    ModalFlow::Consumed
                },
            },
            Modal::SelectReposDir(picker) => match picker.handle(action) {
                Choice::Consumed => ModalFlow::Consumed,
                Choice::Ignored => ModalFlow::Ignored,
                Choice::Close => ModalFlow::Close,
                Choice::Picked(dir, request) => ctx.clone_into(
                    dir,
                    request.url,
                    request.info,
                    request.flow,
                ),
            },
        }
    }
}

} // verus!
