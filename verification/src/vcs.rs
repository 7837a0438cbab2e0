//! What the list knows of a repository and of the spaces it holds.

use vstd::prelude::*;

use crate::text::{concat, decimal, decimal_of};

verus! {

/// The version control system that drives a repository or a space.
#[derive(Debug, Clone, Copy, PartialEq, Eq, Structural)]
pub enum Backend {
    Git,
    Jj,
}

impl Backend {
    /// The short name, as rows and prompts show it.
    #[verifier::allow_in_spec]
    pub fn label(self) -> &'static str
        returns
            (match self {
                Backend::Git => "git",
                Backend::Jj => "jj",
            }),
    {
        match self {
            Backend::Git => "git",
            Backend::Jj => "jj",
        }
    }

    /// What this backend calls a space.
    #[verifier::allow_in_spec]
    pub fn space_noun(self) -> &'static str
        returns
            (match self {
                Backend::Git => "worktree",
                Backend::Jj => "workspace",
            }),
    {
        match self {
            Backend::Git => "worktree",
            Backend::Jj => "workspace",
        }
    }
}

/// Identifies a repository: where it lives on disk.
#[derive(Debug, PartialEq, Eq)]
pub struct RepoId {
    pub path: String,
}

impl View for RepoId {
    type V = Seq<char>;

    open spec fn view(&self) -> Seq<char> {
        self.path@
    }
}

impl RepoId {
    pub fn from_path(path: &str) -> (id: RepoId)
        ensures
            id@ == path@,
    {
        RepoId { path: path.to_owned() }
    }

    /// Whether two ids name the same repository.
    pub fn same(&self, other: &RepoId) -> (yes: bool)
        ensures
            yes == (self@ == other@),
    {
        self.path == other.path
    }
}

impl Clone for RepoId {
    fn clone(&self) -> (copy: Self)
        ensures
            copy == *self,
    {
        RepoId { path: self.path.clone() }
    }
}

/// A repository, open through one backend.
#[derive(Debug, PartialEq, Eq)]
pub struct Repo {
    pub id: RepoId,
    pub name: String,
    /// Root of the repository on disk.
    pub path: String,
    pub backend: Backend,
}

impl Repo {
    pub fn new(name: &str, path: &str, backend: Backend) -> (repo: Repo)
        ensures
            repo.id@ == path@,
            repo.name@ == name@,
            repo.path@ == path@,
            repo.backend == backend,
    {
        Repo {
            id: RepoId::from_path(path),
            name: name.to_owned(),
            path: path.to_owned(),
            backend,
        }
    }
}

impl Clone for Repo {
    fn clone(&self) -> (copy: Self)
        ensures
            copy == *self,
    {
        Repo {
            id: self.id.clone(),
            name: self.name.clone(),
            path: self.path.clone(),
            backend: self.backend,
        }
    }
}

/// How severe a status is; the theme decides what each looks like.
#[derive(Debug, Clone, Copy, PartialEq, Eq, Structural)]
pub enum Tone {
    Muted,
    Good,
    Info,
    Warn,
    Danger,
}

/// One status mark of a row: what is drawn, how severe it is, what it means.
#[derive(Debug, PartialEq, Eq)]
pub struct Glyph {
    pub symbol: String,
    pub tone: Tone,
    pub meaning: String,
}

impl Clone for Glyph {
    fn clone(&self) -> (copy: Self)
        ensures
            copy == *self,
    {
        Glyph { symbol: self.symbol.clone(), tone: self.tone, meaning: self.meaning.clone() }
    }
}

/// How a space stands to its upstream.
#[derive(Debug, Clone, Copy, PartialEq, Eq, Structural)]
pub enum RemoteState {
    Unknown,
    Tracking { ahead: u64, behind: u64 },
    Gone,
    Untracked,
}

/// The state of a space, as its backend reported it.
#[derive(Debug, PartialEq, Eq)]
pub struct SpaceStatus {
    pub remote: RemoteState,
    /// How the space stands to its upstream.
    pub upstream: Glyph,
    /// What its own working state is.
    pub local: Glyph,
}

impl Clone for SpaceStatus {
    fn clone(&self) -> (copy: Self)
        ensures
            copy == *self,
    {
        SpaceStatus {
            remote: self.remote,
            upstream: self.upstream.clone(),
            local: self.local.clone(),
        }
    }
}

/// The commit a space sits on.
#[derive(Debug, PartialEq, Eq)]
pub struct SpaceTip {
    pub subject: String,
    /// Seconds since the epoch.
    pub committed_at: i64,
}

impl Clone for SpaceTip {
    fn clone(&self) -> (copy: Self)
        ensures
            copy == *self,
    {
        SpaceTip { subject: self.subject.clone(), committed_at: self.committed_at }
    }
}

/// Seconds since `committed_at`, never negative.
pub open spec fn elapsed(committed_at: i64, now: i64) -> nat {
    if now <= committed_at {
        0
    } else {
        (now - committed_at) as nat
    }
}

/// An age in its largest whole unit: `now`, minutes, hours, days.
pub open spec fn age_of(seconds: nat) -> Seq<char> {
    if seconds < 60 {
        "now"@
    } else if seconds < 3600 {
        decimal_of(seconds / 60) + "m"@
    } else if seconds < 86400 {
        decimal_of(seconds / 3600) + "h"@
    } else {
        decimal_of(seconds / 86400) + "d"@
    }
}

/// What is shown for the subject of a commit.
pub open spec fn subject_shown(subject: Seq<char>) -> Seq<char> {
    if subject.len() == 0 {
        "(no description)"@
    } else {
        subject
    }
}

impl SpaceTip {
    pub fn new(subject: &str, committed_at: i64) -> (tip: SpaceTip)
        ensures
            tip.subject@ == subject@,
            tip.committed_at == committed_at,
    {
        SpaceTip { subject: subject.to_owned(), committed_at }
    }

    /// How long ago the commit landed, in its largest whole unit.
    pub fn age(&self, now: i64) -> (age: String)
        ensures
            age@ == age_of(elapsed(self.committed_at, now)),
    {
        let seconds: u64 = if now <= self.committed_at {
            0
        } else {
            (now as i128 - self.committed_at as i128) as u64
        };
        if seconds < 60 {
            "now".to_owned()
        } else if seconds < 3600 {
            concat(decimal(seconds / 60).as_str(), "m")
        } else if seconds < 86400 {
            concat(decimal(seconds / 3600).as_str(), "h")
        } else {
            concat(decimal(seconds / 86400).as_str(), "d")
        }
    }

    pub fn subject_or_placeholder(&self) -> (subject: String)
        ensures
            subject@ == subject_shown(self.subject@),
    {
        if self.subject.as_str().is_empty() {
            "(no description)".to_owned()
        } else {
            self.subject.clone()
        }
    }
}

/// A worktree or a workspace: an inert snapshot of it.
#[derive(Debug, PartialEq, Eq)]
pub struct Space {
    pub repo: RepoId,
    pub backend: Backend,
    pub name: String,
    pub path: String,
    pub status: SpaceStatus,
    pub tip: Option<SpaceTip>,
}

impl Clone for Space {
    fn clone(&self) -> (copy: Self)
        ensures
            copy == *self,
    {
        Space {
            repo: self.repo.clone(),
            backend: self.backend,
            name: self.name.clone(),
            path: self.path.clone(),
            status: self.status.clone(),
            tip: match &self.tip {
                Some(tip) => Some(tip.clone()),
                None => None,
            },
        }
    }
}

/// What deleting a space would cost.
#[derive(Debug, Clone, Copy, PartialEq, Eq, Structural)]
pub enum Consequence {
    /// No work is at risk.
    Nothing,
    /// Work goes, and the backend can bring it back.
    RecoverableLoss,
    /// Work goes for good.
    PermanentLoss,
}

/// The verdict on deleting one space.
#[derive(Debug, PartialEq, Eq)]
pub struct DeletionRisk {
    pub consequence: Consequence,
    /// One line for each thing that would be lost.
    pub losses: Vec<String>,
    /// One line for each thing that goes in any case.
    pub removals: Vec<String>,
    /// What deletion leaves behind.
    pub retained: Option<String>,
    /// Whether there is a way back.
    pub aftermath: Option<String>,
}

impl DeletionRisk {
    /// Whether nothing is at risk.
    #[verifier::allow_in_spec]
    pub fn is_safe(&self) -> bool
        returns
            self.consequence is Nothing,
    {
        matches!(self.consequence, Consequence::Nothing)
    }
}

/// An age is told in the largest unit that has passed in full, and as how many of
/// it have; below a minute it is now.
pub proof fn law_an_age_is_told_in_whole_units(seconds: nat, n: nat)
    ensures
        seconds < 60 ==> age_of(seconds) == "now"@,
        60 <= seconds < 60 * 60 && n * 60 <= seconds < (n + 1) * 60 ==> age_of(seconds)
            == decimal_of(n) + "m"@,
        60 * 60 <= seconds < 24 * 60 * 60 && n * 3600 <= seconds < (n + 1) * 3600 ==> age_of(
            seconds,
        ) == decimal_of(n) + "h"@,
        24 * 60 * 60 <= seconds && n * 86400 <= seconds < (n + 1) * 86400 ==> age_of(seconds)
            == decimal_of(n) + "d"@,
{
    assert(n * 60 <= seconds < (n + 1) * 60 ==> seconds / 60 == n) by (nonlinear_arith);
    assert(n * 3600 <= seconds < (n + 1) * 3600 ==> seconds / 3600 == n) by (nonlinear_arith);
    assert(n * 86400 <= seconds < (n + 1) * 86400 ==> seconds / 86400 == n) by (nonlinear_arith);
}

/// What passed is counted from the commit to now, and a commit of the future is
/// of now; a commit without a subject is said to have none.
pub proof fn law_a_commit_is_as_old_as_the_clock_says(
    committed_at: i64,
    now: i64,
    subject: Seq<char>,
)
    ensures
        now >= committed_at ==> elapsed(committed_at, now) == now - committed_at,
        now < committed_at ==> elapsed(committed_at, now) == 0,
        subject.len() > 0 ==> subject_shown(subject) == subject,
        subject.len() == 0 ==> subject_shown(subject) == "(no description)"@,
{
}

} // verus!
