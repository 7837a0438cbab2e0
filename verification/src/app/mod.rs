//! The list of spaces and a stack of popups on top of it.
//!
//! The application owns no state of any one popup. A popup says what should
//! happen to the stack, and the mode in force is that of the popup on top, so
//! taking one off brings back the mode of the layer beneath.

use vstd::prelude::*;

use crate::cli::{copy_all, Args};
use crate::components::context::{AppContext, Modal};
use crate::components::list::Focus;
use crate::components::notify::Notifications;
use crate::components::pr_worktree::PrStep;
use crate::components::repositories::RepositoriesComponent;
use crate::components::worktrees::status::Activity;
use crate::components::worktrees::WorktreesComponent;
use crate::jobs::background::{Background, Effort};
use crate::jobs::in_flight::{of_kind, Kind};
use crate::jobs::JobId;
use crate::keymap::InputMode;
use crate::space_meta::SpaceMeta;

pub mod answers;
pub mod keys;
pub mod laws;
pub mod operations;
pub mod scan;
pub mod view;

verus! {

/// A pull request flow that waits for a job.
#[derive(Debug, PartialEq, Eq)]
pub struct PrFlow {
    pub id: JobId,
    pub step: PrStep,
    /// How tall the stack was when the job started.
    pub depth: usize,
}

/// The application.
#[derive(Debug)]
pub struct App {
    /// The list, the repositories, and what the popups share with them.
    pub ctx: AppContext,
    /// The popups, the topmost last.
    pub modals: Vec<Modal>,
    /// The input mode of the list, the one layer that is no popup.
    pub mode: InputMode,
    /// The space the session ended on.
    pub selected_path: Option<String>,
    pub background: Background,
    /// The directories a scan walks. They are kept: a rescan walks them again.
    pub scan_roots: Vec<String>,
    /// What a scan leaves out.
    pub excluded: Vec<String>,
    /// How many repositories the current scan has reported.
    pub scan_found: usize,
    /// The pull request flow whose job is out.
    pub pr_flow: Option<PrFlow>,
}

/// What the indicator says beside a scan: the setup of created spaces, then the
/// re-reads, then the fetches.
pub open spec fn activity(effort: Effort) -> Option<(Activity, usize)> {
    if effort.count(Kind::Hooks) > 0 {
        Some((Activity::SettingUp, effort.count(Kind::Hooks) as usize))
    } else if effort.count(Kind::Refresh) > 0 {
        Some((Activity::Refreshing, effort.count(Kind::Refresh) as usize))
    } else if effort.count(Kind::Fetch) > 0 {
        Some((Activity::Fetching, effort.count(Kind::Fetch) as usize))
    } else {
        None
    }
}

impl App {
    pub open spec fn wf(self) -> bool {
        &&& self.ctx.wf()
        &&& self.background.wf()
        &&& forall|i: int| 0 <= i < self.modals@.len() ==> (#[trigger] self.modals@[i]).wf()
    }

    /// Builds an application from a configuration and the record of pull
    /// requests. Nothing is read from disk: the directories are walked once
    /// there is a pool to walk them on.
    pub fn with_args(args: Args, meta: SpaceMeta) -> (app: App)
        requires
            meta.wf(),
        ensures
            app.wf(),
            app.ctx.args == args,
            app.ctx.meta == meta,
            app.ctx.worktrees.spaces@.len() == 0,
            app.ctx.worktrees.scan_roots@ == args.repos_dirs@,
            app.ctx.worktrees.scan_origin == args.origins.repos_dirs,
            app.ctx.worktrees.filter.value@ == Seq::<char>::empty(),
            app.ctx.worktrees.focus == Focus::List,
            app.ctx.worktrees.selected_index is None,
            app.ctx.worktrees.scan is None,
            app.ctx.worktrees.busy is None,
            app.ctx.worktrees.frame == 0,
            !app.ctx.worktrees.scanned,
            app.ctx.worktrees.repos_seen == 0,
            app.ctx.worktrees.repo_scope is None,
            app.ctx.repositories.repositories@.len() == 0,
            app.ctx.repositories.filter.value@ == Seq::<char>::empty(),
            app.ctx.repositories.focus == Focus::Filter,
            app.ctx.repositories.selected_index == Some(0usize),
            app.ctx.now == 0,
            app.ctx.notify@ is None,
            app.ctx.background@.len() == 0,
            app.ctx.effects@.len() == 0,
            app.modals@.len() == 0,
            app.mode == InputMode::Normal,
            app.selected_path is None,
            app.background@ == (Effort { pool: None, out: Map::empty() }),
            app.scan_roots@ == args.repos_dirs@,
            app.excluded@ == seq![args.worktrees_dir],
            app.scan_found == 0,
            app.pr_flow is None,
            !app.scanning(),
    {
        let scan_roots = copy_all(&args.repos_dirs);
        let mut excluded: Vec<String> = Vec::new();
        excluded.push(args.worktrees_dir.clone());
        let mut worktrees = WorktreesComponent::new(Vec::new());
        worktrees.set_scan_roots(copy_all(&args.repos_dirs), args.origins.repos_dirs);
        let app = App {
            ctx: AppContext {
                worktrees,
                repositories: RepositoriesComponent::new(Vec::new()),
                notify: Notifications::default(),
                args,
                meta,
                background: Vec::new(),
                effects: Vec::new(),
                now: 0,
            },
            modals: Vec::new(),
            mode: InputMode::Normal,
            selected_path: None,
            background: Background::new(),
            scan_roots,
            excluded,
            scan_found: 0,
            pr_flow: None,
        };
        assert(of_kind(app.background@.out, Kind::Scan) =~= Set::empty());
        app
    }

    /// Sets the moment that what happens next happens at.
    pub fn set_time(&mut self, now: u64)
        ensures
            *final(self) == (App { ctx: AppContext { now, ..old(self).ctx }, ..*old(self) }),
    {
        self.ctx.now = now;
    }

    /// Whether repositories are still being discovered.
    pub open spec fn scanning(self) -> bool {
        self.background@.count(Kind::Scan) > 0
    }

    /// Whether repositories are still being discovered: while they are an empty
    /// list means "not found yet", and afterwards "there are none".
    pub fn is_scanning(&self) -> (yes: bool)
        requires
            self.wf(),
        ensures
            yes == self.scanning(),
    {
        self.background.in_flight.count(Kind::Scan) > 0
    }

    /// This application with another list of spaces.
    pub open spec fn with_worktrees(self, worktrees: WorktreesComponent) -> App {
        App { ctx: AppContext { worktrees, ..self.ctx }, ..self }
    }

    /// This application with its indicator in step with what is running.
    pub open spec fn indicated(self) -> App {
        self.with_worktrees(
            WorktreesComponent {
                scanned: true,
                repos_seen: self.scan_found,
                scan: if self.scanning() {
                    Some(self.scan_found)
                } else {
                    None
                },
                busy: activity(self.background@),
                ..self.ctx.worktrees
            },
        )
    }

    /// Keeps the indicator in step with what is running.
    pub fn update_scan_indicator(&mut self)
        requires
            old(self).wf(),
        ensures
            final(self).wf(),
            *final(self) == old(self).indicated(),
    {
        let scanning = self.is_scanning();
        self.ctx.worktrees.set_scan(self.scan_found, scanning);
        let hooks: usize = self.background.in_flight.count(Kind::Hooks);
        let refreshes: usize = self.background.in_flight.count(Kind::Refresh);
        let fetches: usize = self.background.in_flight.count(Kind::Fetch);
        let busy = if hooks > 0 {
            Some((Activity::SettingUp, hooks))
        } else if refreshes > 0 {
            Some((Activity::Refreshing, refreshes))
        } else if fetches > 0 {
            Some((Activity::Fetching, fetches))
        } else {
            None
        };
        self.ctx.worktrees.set_busy(busy);
    }

    /// Whether `next` is this application after the clock moved on.
    pub open spec fn ticked(self, next: App) -> bool {
        &&& next.ctx.notify.current == (match self.ctx.notify.current {
            Some(message) => if message.expired_at(self.ctx.now) {
                None
            } else {
                Some(message)
            },
            None => None,
        })
        &&& next == (App {
            ctx: AppContext {
                notify: next.ctx.notify,
                worktrees: WorktreesComponent {
                    frame: if self.ctx.worktrees.frame == usize::MAX {
                        0
                    } else {
                        (self.ctx.worktrees.frame + 1) as usize
                    },
                    ..self.ctx.worktrees
                },
                ..self.ctx
            },
            ..self
        })
    }

    /// Advances everything the clock drives: the spinner, and the time a message
    /// has left.
    pub fn on_tick(&mut self)
        requires
            old(self).wf(),
        ensures
            final(self).wf(),
            old(self).ticked(*final(self)),
    {
        self.ctx.worktrees.tick();
        self.ctx.notify.expire(self.ctx.now);
    }

    /// The mode the next key is read in.
    pub open spec fn mode_in_force(self) -> InputMode {
        if self.modals@.len() == 0 {
            self.mode
        } else {
            self.modals@.last().mode()
        }
    }

    /// The mode the next key is read in: that of the popup on top, or the list's.
    pub fn effective_mode(&self) -> (mode: InputMode)
        ensures
            mode == self.mode_in_force(),
    {
        let n: usize = self.modals.len();
        if n == 0 {
            self.mode
        } else {
            self.modals[n - 1].mode()
        }
    }
}

} // verus!
