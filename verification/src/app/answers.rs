//! What the application makes of the quick work that was carried out for it.

use vstd::prelude::*;

use super::App;
use crate::components::confirm::{ConfirmComponent, Gate, Work};
use crate::components::context::{AppContext, Creation, Modal};
use crate::components::create_worktree::CreateWorktreeComponent;
use crate::text::{concat, same_text};
use crate::vcs::{Backend, Consequence, DeletionRisk, Space};

verus! {

/// Whether a dialog asks to delete a space, guarded by what would be lost:
/// nothing, and Enter is enough; work that can be brought back, and a key of its
/// own is; work that cannot, and the name of the space has to be typed.
pub open spec fn is_delete_dialog(
    dialog: ConfirmComponent,
    space: Space,
    risk: DeletionRisk,
) -> bool {
    let noun = space.backend.space_noun()@;
    &&& dialog.title@ == "Delete "@ + noun
    &&& dialog.label@ == (if risk.is_safe() {
        "Delete this "@ + noun + "?"@
    } else {
        "This "@ + noun + " holds work that exists nowhere else."@
    })
    &&& dialog.detail == space.path
    &&& dialog.removals == risk.removals
    &&& dialog.retained == risk.retained
    &&& dialog.on_confirm == Some(Work::DeleteSpace)
    &&& match risk.consequence {
        Consequence::Nothing => dialog.losses@.len() == 0 && dialog.aftermath is None
            && dialog.gate == Gate::Enter,
        Consequence::RecoverableLoss => dialog.losses == risk.losses && dialog.aftermath
            == risk.aftermath && dialog.gate == Gate::Override,
        Consequence::PermanentLoss => dialog.losses == risk.losses && dialog.aftermath
            == risk.aftermath && (dialog.gate matches Gate::Phrase { expected, typed } && expected
            == space.name && typed@ == Seq::<char>::empty()),
    }
}

/// The question before a deletion, sized to what is about to be lost. What goes
/// in any case is said in every shape of it.
pub fn confirm_delete(space: &Space, risk: DeletionRisk) -> (dialog: ConfirmComponent)
    ensures
        is_delete_dialog(dialog, *space, risk),
{
    let noun = space.backend.space_noun();
    let label = if risk.is_safe() {
        let mut label = concat("Delete this ", noun);
        label.append("?");
        label
    } else {
        let mut label = concat("This ", noun);
        label.append(" holds work that exists nowhere else.");
        label
    };
    let dialog = ConfirmComponent::new(
        concat("Delete ", noun),
        label,
        space.path.clone(),
        Work::DeleteSpace,
    ).removing(risk.removals, risk.retained);
    match risk.consequence {
        Consequence::Nothing => dialog,
        Consequence::RecoverableLoss => dialog.at_risk(
            risk.losses,
            risk.aftermath,
        ).require_override(),
        Consequence::PermanentLoss => dialog.at_risk(
            risk.losses,
            risk.aftermath,
        ).require_phrase(space.name.clone()),
    }
}

impl App {
    /// Whether `next` is this application after the cost of a deletion became
    /// known: a forced one that costs nothing is carried out, and any other is
    /// asked about.
    pub open spec fn risk_known(
        self,
        space: Space,
        risk: DeletionRisk,
        forced: bool,
        next: App,
    ) -> bool {
        if forced && risk.is_safe() {
            self.ctx.deletion_wanted(next.ctx) && next == self.with_ctx(next.ctx)
        } else {
            &&& self.is_pushed(next)
            &&& next.modals@.last() matches Modal::Confirm(dialog)
            &&& is_delete_dialog(dialog, space, risk)
        }
    }

    /// Takes in what deleting a space would cost.
    pub fn risk_assessed(&mut self, space: &Space, risk: DeletionRisk, forced: bool)
        requires
            old(self).wf(),
        ensures
            final(self).wf(),
            old(self).risk_known(*space, risk, forced, *final(self)),
    {
        if forced && risk.is_safe() {
            self.ctx.delete_selected();
        } else {
            self.modals.push(Modal::Confirm(confirm_delete(space, risk)));
            assert(self.modals@.drop_last() =~= old(self).modals@);
        }
    }

    /// Takes in what came of the deletion of the space at `path`.
    pub fn space_deleted(&mut self, path: &str, outcome: Result<(), String>)
        requires
            old(self).wf(),
        ensures
            final(self).wf(),
            old(self).ctx.deleted(path@, outcome, final(self).ctx),
            *final(self) == old(self).with_ctx(final(self).ctx),
    {
        self.ctx.space_deleted(path, outcome);
    }

    /// Whether `next` is this application with what came of a creation taken in,
    /// and the hooks of a created space started.
    pub open spec fn created(
        self,
        creation: Creation,
        outcome: Result<Space, String>,
        next: App,
    ) -> bool {
        exists|ctx: AppContext|
            {
                &&& match outcome {
                    Ok(space) => self.ctx.welcomed(creation, space, ctx),
                    Err(error) => self.ctx.failed(error@, ctx),
                }
                &&& #[trigger] self.with_ctx(ctx).pumped(next)
            }
    }

    /// Takes in what came of a creation.
    pub fn space_created(&mut self, creation: Creation, outcome: Result<Space, String>)
        requires
            old(self).wf(),
        ensures
            final(self).wf(),
            old(self).created(creation, outcome, *final(self)),
    {
        self.ctx.space_created(creation, outcome);
        assert(*self == old(self).with_ctx(self.ctx));
        self.pump();
    }

    /// Whether the prompt on top asked what this name would start from.
    pub open spec fn asks_base_of(self, name: Seq<char>, backend: Backend) -> bool {
        &&& self.modals@.len() > 0
        &&& self.modals@.last() matches Modal::CreateWorktree(prompt)
        &&& prompt.new_worktree_name@ == name
        &&& prompt.backend == backend
    }

    /// Whether `next` is this application with the prompt on top told what its
    /// name would start from. A prompt that has moved on is not told.
    pub open spec fn base_known(self, name: Seq<char>, backend: Backend, hint: String, next: App) -> bool {
        if self.asks_base_of(name, backend) {
            let prompt = self.modals@.last()->CreateWorktree_0;
            &&& next.modals@ == self.modals@.drop_last().push(
                Modal::CreateWorktree(
                    CreateWorktreeComponent { base_branch_hint: Some(hint), ..prompt },
                ),
            )
            &&& next == (App { modals: next.modals, ..self })
        } else {
            next == self
        }
    }

    /// Takes in what a space of this name would start from.
    pub fn base_resolved(&mut self, name: &str, backend: Backend, hint: String)
        requires
            old(self).wf(),
        ensures
            final(self).wf(),
            old(self).base_known(name@, backend, hint, *final(self)),
    {
        let n: usize = self.modals.len();
        if n == 0 {
            return;
        }
        let asked = match &self.modals[n - 1] {
            Modal::CreateWorktree(prompt) => same_text(prompt.new_worktree_name.as_str(), name)
                && prompt.backend == backend,
            _ => false,
        };
        if !asked {
            return;
        }
        let ghost before = self.modals@;
        assert(before[n - 1].wf());
        if let Some(Modal::CreateWorktree(prompt)) = self.modals.pop() {
            let mut prompt = prompt;
            prompt.set_base_hint(Some(hint));
            self.modals.push(Modal::CreateWorktree(prompt));
            assert(self.modals@ =~= before.drop_last().push(self.modals@.last()));
        }
    }
}

} // verus!
