//! The panes and popups of the interface.

use vstd::prelude::*;

pub mod confirm;
pub mod context;
pub mod create_worktree;
pub mod detail;
pub mod filter;
pub mod help;
pub mod laws;
pub mod list;
pub mod modal;
pub mod notify;
pub mod picker;
pub mod popup_laws;
pub mod pr_flow;
pub mod pr_worktree;
pub mod prompt;
pub mod recent_spaces;
pub mod repositories;
pub mod repository_laws;
pub mod select_directory;
pub mod stack;
pub mod theme_picker;
pub mod worktrees;

verus! {

/// What a component made of an action.
#[derive(Debug, Clone, Copy, PartialEq, Eq, Structural)]
pub enum EventState {
    Consumed,
    NotConsumed,
    Exit,
}

/// What a key asks for.
#[derive(Debug, Clone, Copy, PartialEq, Eq, Structural)]
pub enum Action {
    MoveDown,
    MoveUp,
    GoFirst,
    GoLast,
    Select,
    DeleteWithConfirmation,
    ForceDelete,
    OpenRepositories,
    OpenPrWorktree,
    OpenPrWorktreeAutoClone,
    ClosePopup,
    /// Re-read what is already known, from disk alone.
    Refresh,
    /// Walk the repos dirs again, from scratch.
    Rescan,
    /// Fetch the remotes of the repository owning the selected space.
    FetchSelected,
    EnterInsertMode,
    ExitInsertMode,
    InsertChar(char),
    DeleteChar,
    FocusNext,
    ShowHelp,
    Quit,
}

} // verus!
