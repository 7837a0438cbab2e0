//! What the list shows of a worktree, and what its deletion would cost.

use vstd::prelude::*;

use super::RemoteStatus;
use crate::github::opt_text;
use crate::text::{concat, decimal, decimal_of, views};
use crate::vcs::{Consequence, DeletionRisk, Glyph, RemoteState, SpaceStatus, Tone};

verus! {

/// What is drawn for a mark, how severe it is, and what it means.
pub open spec fn mark(glyph: Glyph) -> (Seq<char>, Tone, Seq<char>) {
    (glyph.symbol@, glyph.tone, glyph.meaning@)
}

fn glyph(symbol: &str, tone: Tone, meaning: &str) -> (glyph: Glyph)
    ensures
        mark(glyph) == (symbol@, tone, meaning@),
{
    Glyph { symbol: symbol.to_owned(), tone, meaning: meaning.to_owned() }
}

/// How a worktree stands to its upstream, `ahead` and `behind` commits from it.
pub open spec fn remote_of(remote: RemoteStatus, ahead: u64, behind: u64) -> RemoteState {
    match remote {
        RemoteStatus::Exists => RemoteState::Tracking { ahead, behind },
        RemoteStatus::Gone => RemoteState::Gone,
        RemoteStatus::NeverPushed => RemoteState::Untracked,
    }
}

/// The mark of an upstream.
pub open spec fn upstream_mark(remote: RemoteStatus, ahead: u64, behind: u64) -> (
    Seq<char>,
    Tone,
    Seq<char>,
) {
    match remote {
        RemoteStatus::Gone => ("\u{2718}"@, Tone::Danger, "its upstream is gone"@),
        RemoteStatus::NeverPushed => ("\u{2b06}"@, Tone::Muted, "never pushed"@),
        RemoteStatus::Exists => if ahead == 0 && behind == 0 {
            ("\u{2714}"@, Tone::Good, "in sync with its upstream"@)
        } else if behind == 0 {
            ("\u{2191}"@, Tone::Warn, "ahead of its upstream"@)
        } else if ahead == 0 {
            ("\u{2193}"@, Tone::Warn, "behind its upstream"@)
        } else {
            ("\u{2195}"@, Tone::Warn, "diverged from its upstream"@)
        },
    }
}

/// The mark of a working tree.
pub open spec fn local_mark(is_dirty: bool) -> (Seq<char>, Tone, Seq<char>) {
    if is_dirty {
        ("*"@, Tone::Warn, "has uncommitted changes"@)
    } else {
        (" "@, Tone::Muted, "is clean"@)
    }
}

/// What the list shows of a worktree: how far it is from its upstream, where it
/// has one, and whether it holds changes.
pub fn status_of(remote: RemoteStatus, ahead: u64, behind: u64, is_dirty: bool) -> (status:
    SpaceStatus)
    ensures
        status.remote == remote_of(remote, ahead, behind),
        mark(status.upstream) == upstream_mark(remote, ahead, behind),
        mark(status.local) == local_mark(is_dirty),
{
    let (state, upstream) = match remote {
        RemoteStatus::Exists => (
            RemoteState::Tracking { ahead, behind },
            if ahead == 0 && behind == 0 {
                glyph("\u{2714}", Tone::Good, "in sync with its upstream")
            } else if behind == 0 {
                glyph("\u{2191}", Tone::Warn, "ahead of its upstream")
            } else if ahead == 0 {
                glyph("\u{2193}", Tone::Warn, "behind its upstream")
            } else {
                glyph("\u{2195}", Tone::Warn, "diverged from its upstream")
            },
        ),
        RemoteStatus::Gone => (
            RemoteState::Gone,
            glyph("\u{2718}", Tone::Danger, "its upstream is gone"),
        ),
        RemoteStatus::NeverPushed => (
            RemoteState::Untracked,
            glyph("\u{2b06}", Tone::Muted, "never pushed"),
        ),
    };
    let local = if is_dirty {
        glyph("*", Tone::Warn, "has uncommitted changes")
    } else {
        glyph(" ", Tone::Muted, "is clean")
    };
    SpaceStatus { remote: state, upstream, local }
}

/// What would be lost with a worktree: what is not known to be clean is taken to
/// hold work. `changes` counts the changed files, where they could be counted.
pub open spec fn loss_of(listed: bool, changes: Option<usize>) -> Option<Seq<char>> {
    if !listed {
        Some("its repository is not listed, so nothing is known of it"@)
    } else {
        match changes {
            None => Some("its state could not be read"@),
            Some(n) => if n == 0 {
                None
            } else if n == 1 {
                Some("1 uncommitted file"@)
            } else {
                Some(decimal_of(n as nat) + " uncommitted files"@)
            },
        }
    }
}

fn loss(listed: bool, changes: Option<usize>) -> (text: Option<String>)
    ensures
        opt_text(text) == loss_of(listed, changes),
{
    if !listed {
        return Some("its repository is not listed, so nothing is known of it".to_owned());
    }
    match changes {
        None => Some("its state could not be read".to_owned()),
        Some(n) => if n == 0 {
            None
        } else if n == 1 {
            Some("1 uncommitted file".to_owned())
        } else {
            Some(concat(decimal(n as u64).as_str(), " uncommitted files"))
        },
    }
}

/// What deleting the worktree at `path` would cost: its directory goes, its
/// branch stays, and changes that were not committed are gone for good.
pub fn risk_of(path: &str, name: &str, listed: bool, changes: Option<usize>) -> (risk: DeletionRisk)
    ensures
        views(risk.removals@) == seq!["the directory "@ + path@],
        opt_text(risk.retained) == Some("the branch "@ + name@),
        match loss_of(listed, changes) {
            Some(loss) => {
                &&& risk.consequence == Consequence::PermanentLoss
                &&& views(risk.losses@) == seq![loss]
                &&& opt_text(risk.aftermath) == Some("There is no way back."@)
            },
            None => {
                &&& risk.consequence == Consequence::Nothing
                &&& risk.losses@.len() == 0
                &&& risk.aftermath is None
            },
        },
{
    let mut removals: Vec<String> = Vec::new();
    removals.push(concat("the directory ", path));
    let retained = Some(concat("the branch ", name));
    let mut losses: Vec<String> = Vec::new();
    assert(views(removals@) =~= seq!["the directory "@ + path@]);
    match loss(listed, changes) {
        Some(text) => {
            losses.push(text);
            assert(views(losses@) =~= seq![text@]);
            DeletionRisk {
                consequence: Consequence::PermanentLoss,
                losses,
                removals,
                retained,
                aftermath: Some("There is no way back.".to_owned()),
            }
        },
        None => DeletionRisk {
            consequence: Consequence::Nothing,
            losses,
            removals,
            retained,
            aftermath: None,
        },
    }
}

/// A worktree goes without a question only where it is known to be clean.
pub proof fn law_only_a_clean_worktree_is_safe(listed: bool, changes: Option<usize>)
    ensures
        loss_of(listed, changes) is None <==> listed && changes == Some(0usize),
{
}

/// How a worktree stands to its upstream is told by a mark of its own for each way,
/// and in words.
pub proof fn law_each_standing_has_its_mark(remote: RemoteStatus, ahead: u64, behind: u64)
    ensures
        ({
            let (symbol, tone, meaning) = upstream_mark(remote, ahead, behind);
            &&& remote is Gone ==> symbol == "\u{2718}"@ && tone == Tone::Danger && meaning
                == "its upstream is gone"@
            &&& remote is NeverPushed ==> symbol == "\u{2b06}"@ && tone == Tone::Muted && meaning
                == "never pushed"@
            &&& remote is Exists && ahead == 0 && behind == 0 ==> symbol == "\u{2714}"@ && tone
                == Tone::Good && meaning == "in sync with its upstream"@
            &&& remote is Exists && ahead > 0 && behind == 0 ==> symbol == "\u{2191}"@ && tone
                == Tone::Warn && meaning == "ahead of its upstream"@
            &&& remote is Exists && ahead == 0 && behind > 0 ==> symbol == "\u{2193}"@ && tone
                == Tone::Warn && meaning == "behind its upstream"@
            &&& remote is Exists && ahead > 0 && behind > 0 ==> symbol == "\u{2195}"@ && tone
                == Tone::Warn && meaning == "diverged from its upstream"@
        }),
        remote_of(remote, ahead, behind) == (RemoteState::Tracking { ahead, behind })
            <==> remote is Exists,
        remote_of(remote, ahead, behind) == RemoteState::Gone <==> remote is Gone,
        remote_of(remote, ahead, behind) == RemoteState::Untracked <==> remote is NeverPushed,
{
}

/// Changed files are marked, and a clean worktree is not; what a deletion would lose
/// is counted.
pub proof fn law_changes_are_marked_and_counted(changes: usize)
    ensures
        local_mark(true).0 == "*"@ && local_mark(true).1 == Tone::Warn && local_mark(true).2
            == "has uncommitted changes"@,
        local_mark(false).0 == " "@ && local_mark(false).1 == Tone::Muted && local_mark(false).2
            == "is clean"@,
        changes == 1 ==> loss_of(true, Some(changes)) == Some("1 uncommitted file"@),
        changes > 1 ==> loss_of(true, Some(changes)) == Some(
            decimal_of(changes as nat) + " uncommitted files"@,
        ),
        loss_of(true, None) == Some("its state could not be read"@),
        loss_of(false, Some(changes)) == Some(
            "its repository is not listed, so nothing is known of it"@,
        ),
        loss_of(false, None) == loss_of(false, Some(changes)),
{
}

} // verus!
