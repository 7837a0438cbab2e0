//! Worktrees of git repositories: what is done to create one, and what is said
//! of those there are.

use vstd::prelude::*;

pub mod discovery;
pub mod laws;
pub mod repository;
pub mod status;

verus! {

/// How a branch stands to its remote.
#[derive(Debug, Clone, Copy, PartialEq, Eq, Structural)]
pub enum RemoteStatus {
    /// It has an upstream, which is there.
    Exists,
    /// It has an upstream, which is gone.
    Gone,
    /// It has none.
    NeverPushed,
}

/// A worktree as the list needs it.
#[derive(Debug, PartialEq, Eq)]
pub struct Worktree {
    pub name: String,
    pub path: String,
    pub remote_status: RemoteStatus,
    pub is_dirty: bool,
}

} // verus!
