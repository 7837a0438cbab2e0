//! The frame: the list, and over it every popup from the bottom of the stack up.

use vstd::prelude::*;

use super::App;
use crate::components::confirm::ConfirmView;
use crate::components::context::{AppContext, Modal};
use crate::components::help::HelpView;
use crate::components::modal::{
    is_countable, law_a_popup_stays_inside_the_frame, popup_in, Extent,
};
use crate::components::picker::PickerView;
use crate::components::prompt::{prompt_width, Prompt, PromptView, PROMPT_HEIGHT};
use crate::components::repositories::{repositories_table, RepositoriesView};
use crate::components::worktrees::view::WorktreesView;
use crate::screen::Rect;
use crate::theme::{self, Theme};

verus! {

/// A popup as it is drawn, or nothing where there is no room for it.
#[derive(Debug, PartialEq, Eq)]
pub enum Drawing {
    Repositories(Option<RepositoriesView>),
    Prompt(Option<PromptView>),
    Confirm(Option<ConfirmView>),
    Help(Option<HelpView>),
    Picker(Option<PickerView>),
}

/// A frame, back to front.
#[derive(Debug, PartialEq, Eq)]
pub struct Frame {
    pub list: WorktreesView,
    pub popups: Vec<Drawing>,
}

impl Modal {
    /// How wide and how tall the popup would like to be.
    pub open spec fn extents(self, full: Rect, theme: Theme) -> (Extent, Extent) {
        match self {
            Modal::Repositories(_) => (Extent::share(50, 34, 80), Extent::share(50, 8, 30)),
            Modal::CreateWorktree(_) => (
                prompt_width(55, 36, 90),
                Extent::fixed(PROMPT_HEIGHT),
            ),
            Modal::Confirm(dialog) => (
                Extent::share(60, 34, 100),
                dialog.extent_in(full, theme),
            ),
            Modal::Help(help) => (
                Extent::fixed(help.wanted().0),
                Extent::fixed(help.wanted().1),
            ),
            Modal::PrWorktree(_) => (prompt_width(70, 38, 110), Extent::fixed(PROMPT_HEIGHT)),
            Modal::SelectReposDir(picker) => (Extent::share(60, 38, 110), picker.wanted()),
        }
    }

    /// Where the popup sits inside a frame.
    pub open spec fn place(self, full: Rect, theme: Theme) -> Rect {
        let (width, height) = self.extents(full, theme);
        popup_in(full, width, height)
    }

    /// Where the popup sits inside the frame: each sizes itself.
    pub fn area(&self, full: Rect, theme: &Theme) -> (area: Rect)
        requires
            is_countable(full),
        ensures
            area == self.place(full, *theme),
    {
        match self {
            Modal::Repositories(modal) => modal.area(full),
            Modal::CreateWorktree(prompt) => prompt.area(full),
            Modal::Confirm(dialog) => dialog.area(full, theme),
            Modal::Help(help) => help.area(full),
            Modal::PrWorktree(prompt) => prompt.area(full),
            Modal::SelectReposDir(picker) => picker.area(full),
        }
    }

    /// Whether `drawing` is this popup as it is drawn into `area`, and `next` what
    /// the popup remembers of that.
    pub open spec fn is_drawn(
        self,
        area: Rect,
        ctx: AppContext,
        theme: &Theme,
        drawing: Drawing,
        next: Modal,
    ) -> bool {
        match (self, drawing) {
            (Modal::Repositories(modal), Drawing::Repositories(view)) => next == self && (
            match view {
                Some(v) => !area.is_empty() && ctx.repositories.is_view(
                    v,
                    area,
                    modal.mode,
                    theme::border_focused(theme),
                    theme::popup_surface(theme),
                    repositories_table(),
                    *theme,
                ),
                None => area.is_empty(),
            }),
            (Modal::CreateWorktree(prompt), Drawing::Prompt(view)) => next == self && exists|
                drawn: Prompt,
            | #[trigger]
                prompt.is_prompt(drawn, *theme) && drawn.is_drawn(area, *theme, view),
            (Modal::Confirm(dialog), Drawing::Confirm(view)) => next == self && dialog.is_drawn(
                area,
                theme,
                view,
            ),
            (Modal::Help(help), Drawing::Help(view)) => next matches Modal::Help(after)
                && help.is_drawn(area, theme, view, after),
            (Modal::PrWorktree(prompt), Drawing::Prompt(view)) => next == Modal::PrWorktree(
                prompt.turned(),
            ) && exists|drawn: Prompt| #[trigger]
                prompt.is_prompt(drawn, *theme) && drawn.is_drawn(area, *theme, view),
            (Modal::SelectReposDir(picker), Drawing::Picker(view)) => next == self
                && picker.is_drawn(area, theme, view),
            _ => false,
        }
    }

    /// Draws the popup into `area`.
    pub fn draw(&mut self, area: Rect, ctx: &AppContext, theme: &Theme) -> (drawing: Drawing)
        requires
            is_countable(area),
        ensures
            old(self).is_drawn(area, *ctx, theme, drawing, *final(self)),
            old(self).wf() ==> final(self).wf(),
    {
        match self {
            Modal::Repositories(modal) => Drawing::Repositories(
                ctx.repositories.draw(area, modal.mode, theme),
            ),
            Modal::CreateWorktree(prompt) => Drawing::Prompt(prompt.draw(area, theme)),
            Modal::Confirm(dialog) => Drawing::Confirm(dialog.draw(area, theme)),
            Modal::Help(help) => Drawing::Help(help.draw(area, theme)),
            Modal::PrWorktree(prompt) => Drawing::Prompt(prompt.draw(area, theme)),
            Modal::SelectReposDir(picker) => Drawing::Picker(picker.draw(area, theme)),
        }
    }
}

impl App {
    /// Whether `frame` is this application as it is drawn, and `next` what its
    /// popups remember of that.
    pub open spec fn is_drawn(self, full: Rect, theme: &Theme, frame: Frame, next: App) -> bool {
        &&& self.ctx.worktrees.is_drawn(
            frame.list,
            full,
            self.mode_in_force(),
            self.modals@.len() == 0,
            false,
            self.ctx.notify.current,
            *theme,
        )
        &&& frame.popups@.len() == self.modals@.len()
        &&& next.modals@.len() == self.modals@.len()
        &&& forall|i: int|
            0 <= i < self.modals@.len() ==> (#[trigger] self.modals@[i]).is_drawn(
                self.modals@[i].place(full, *theme),
                self.ctx,
                theme,
                frame.popups@[i],
                next.modals@[i],
            )
        &&& next == (App { modals: next.modals, ..self })
    }

    /// Draws the list, and every popup over it from the bottom up: each covers
    /// its own area, so the one on top wins.
    pub fn draw(&mut self, full: Rect, theme: &Theme) -> (frame: Frame)
        requires
            old(self).wf(),
            is_countable(full),
        ensures
            final(self).wf(),
            old(self).is_drawn(full, theme, frame, *final(self)),
    {
        let mode = self.effective_mode();
        let alone = self.modals.len() == 0;
        let list = self.ctx.worktrees.draw(
            full,
            mode,
            alone,
            false,
            self.ctx.notify.current(),
            theme,
        );
        let mut popups: Vec<Drawing> = Vec::new();
        let mut drawn: Vec<Modal> = Vec::new();
        let ghost before = self.modals@;
        let ghost ctx = self.ctx;
        let mut left: Vec<Modal> = Vec::new();
        std::mem::swap(&mut left, &mut self.modals);
        let ghost mut i: int = 0;
        assert(before.skip(0) =~= before);
        while left.len() > 0
            invariant
                0 <= i <= before.len(),
                left@ == before.skip(i),
                popups@.len() == i,
                drawn@.len() == i,
                ctx == old(self).ctx,
                self.ctx == ctx,
                is_countable(full),
                forall|k: int| 0 <= k < before.len() ==> (#[trigger] before[k]).wf(),
                forall|k: int| 0 <= k < i ==> (#[trigger] drawn@[k]).wf(),
                forall|k: int|
                    0 <= k < i ==> (#[trigger] before[k]).is_drawn(
                        before[k].place(full, *theme),
                        ctx,
                        theme,
                        popups@[k],
                        drawn@[k],
                    ),
                *self == (App { modals: self.modals, ..*old(self) }),
            decreases left.len(),
        {
            let mut modal = left.remove(0);
            assert(modal == before[i]);
            assert(left@ =~= before.skip(i + 1));
            let area = modal.area(full, theme);
            proof {
                let (width, height) = modal.extents(full, *theme);
                law_a_popup_stays_inside_the_frame(full, width, height);
            }
            popups.push(modal.draw(area, &self.ctx, theme));
            drawn.push(modal);
            proof {
                i = i + 1;
            }
        }
        self.modals = drawn;
        Frame { list, popups }
    }
}

/// The list is drawn first, without the keyboard while a popup is up, and every popup
/// over it, each in its own place.
pub proof fn law_every_popup_is_drawn(app: App, full: Rect, theme: Theme, frame: Frame, next: App)
    requires
        app.is_drawn(full, &theme, frame, next),
    ensures
        frame.popups@.len() == app.modals@.len(),
        app.ctx.worktrees.is_drawn(
            frame.list,
            full,
            app.mode_in_force(),
            app.modals@.len() == 0,
            false,
            app.ctx.notify.current,
            theme,
        ),
        forall|i: int|
            0 <= i < app.modals@.len() ==> (#[trigger] app.modals@[i]).is_drawn(
                app.modals@[i].place(full, theme),
                app.ctx,
                &theme,
                frame.popups@[i],
                next.modals@[i],
            ),
        next.ctx == app.ctx,
        next.background == app.background,
{
}

/// Every popup is drawn as what it is.
pub proof fn law_a_popup_is_drawn_as_what_it_is(
    modal: Modal,
    area: Rect,
    ctx: AppContext,
    theme: Theme,
    drawing: Drawing,
    next: Modal,
)
    requires
        modal.is_drawn(area, ctx, &theme, drawing, next),
    ensures
        modal is Repositories <==> drawing is Repositories,
        modal is Confirm <==> drawing is Confirm,
        modal is Help <==> drawing is Help,
        modal is SelectReposDir <==> drawing is Picker,
        modal is CreateWorktree || modal is PrWorktree <==> drawing is Prompt,
        !(modal is Help || modal is PrWorktree) ==> next == modal,
        modal is Help <==> next is Help,
        modal is PrWorktree <==> next is PrWorktree,
{
}

/// Each kind of popup takes its own share of the frame.
pub proof fn law_each_popup_takes_its_share(modal: Modal, full: Rect, theme: Theme)
    ensures
        modal is Repositories ==> modal.extents(full, theme) == (
            Extent { percent: 50, min: 34, max: 80 },
            Extent { percent: 50, min: 8, max: 30 },
        ),
        modal is Confirm ==> modal.extents(full, theme).0 == (Extent {
            percent: 60,
            min: 34,
            max: 100,
        }),
        modal is SelectReposDir ==> modal.extents(full, theme).0 == (Extent {
            percent: 60,
            min: 38,
            max: 110,
        }),
        modal.place(full, theme) == popup_in(
            full,
            modal.extents(full, theme).0,
            modal.extents(full, theme).1,
        ),
{
}

} // verus!
