//! shanti keeps the worktrees and workspaces of many repositories in one list.

use vstd::prelude::*;

pub mod app;
pub mod cli;
pub mod components;
pub mod config;
pub mod dirs;
pub mod events;
pub mod fuzzy;
pub mod git;
pub mod github;
pub mod hooks;
pub mod jobs;
pub mod keymap;
pub mod order;
pub mod screen;
pub mod space_meta;
pub mod text;
pub mod theme;
pub mod vcs;

verus! {

/// How a session ended. Only a pick writes a path for the shell to follow: one
/// printed after a quit would move the shell against the user's intent.
#[derive(Debug, PartialEq, Eq)]
pub enum Outcome {
    /// A space was picked; this is its path.
    Selected(String),
    /// The user left without picking anything.
    Quit,
}

impl Clone for Outcome {
    fn clone(&self) -> (copy: Self)
        ensures
            copy == *self,
    {
        match self {
            Outcome::Selected(path) => Outcome::Selected(path.clone()),
            Outcome::Quit => Outcome::Quit,
        }
    }
}

/// What a session writes to the standard output.
pub open spec fn printed(outcome: Outcome) -> Option<Seq<char>> {
    match outcome {
        Outcome::Selected(path) => Some(path@ + "\n"@),
        Outcome::Quit => None,
    }
}

/// The line to write to the standard output, if any.
pub fn output(outcome: &Outcome) -> (line: Option<String>)
    ensures
        github::opt_text(line) == printed(*outcome),
{
    match outcome {
        Outcome::Selected(path) => Some(text::concat(path.as_str(), "\n")),
        Outcome::Quit => None,
    }
}

/// Only a pick writes a path, and nothing but that path on a line of its own.
pub proof fn law_only_a_pick_is_printed(outcome: Outcome)
    ensures
        printed(outcome) is Some <==> outcome is Selected,
        outcome matches Outcome::Selected(path) ==> printed(outcome) == Some(path@.push('\n')),
{
    reveal_strlit("\n");
    if let Outcome::Selected(path) = outcome {
        assert(path@ + "\n"@ =~= path@.push('\n'));
    }
}

} // verus!
