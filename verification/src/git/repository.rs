//! A git repository: its name, what a new worktree of it is based on, and the
//! steps that create one.
//!
//! Git itself is asked step by step. Every answer leads to the next step, to a
//! finished worktree, or to the reason why there is none.

use vstd::prelude::*;

use super::{RemoteStatus, Worktree};
use crate::github::{join_path, opt_text, path_in};
use crate::text::{
    concat, debug_of, from_chars, has_prefix, parts_of, quoted, same_text, split, starts_with,
    to_chars, views,
};

verus! {

// ---------------------------------------------------------------------------
// Names
// ---------------------------------------------------------------------------

/// How many leading parts remain once trailing empty parts and dots are gone.
pub open spec fn real_parts(parts: Seq<Seq<char>>) -> nat
    decreases parts.len(),
{
    if parts.len() == 0 {
        0
    } else if parts.last().len() == 0 || parts.last() == "."@ {
        real_parts(parts.drop_last())
    } else {
        parts.len()
    }
}

/// The last real component of a path, or the whole of a path that has none.
pub open spec fn dir_name(path: Seq<char>) -> Seq<char> {
    let parts = parts_of(path, '/');
    let n = real_parts(parts);
    if n == 0 || parts[n - 1] == ".."@ {
        path
    } else {
        parts[n - 1]
    }
}

/// The last real component of `path`. Trailing separators and dots are not
/// components.
pub fn directory_name(path: &str) -> (name: String)
    ensures
        name@ == dir_name(path@),
{
    let parts = split(path, '/');
    let ghost all = views(parts@);
    let mut n: usize = parts.len();
    assert(all.take(n as int) =~= all);
    while n > 0 && (parts[n - 1].as_str().is_empty() || same_text(parts[n - 1].as_str(), "."))
        invariant
            n <= parts@.len(),
            all == views(parts@),
            real_parts(all) == real_parts(all.take(n as int)),
        decreases n,
    {
        assert(all.take(n as int).drop_last() =~= all.take(n - 1));
        assert(all.take(n as int).last() == parts@[n - 1]@);
        n = n - 1;
    }
    if n > 0 {
        assert(all.take(n as int).last() == parts@[n - 1]@);
    }
    if n == 0 || same_text(parts[n - 1].as_str(), "..") {
        path.to_owned()
    } else {
        parts[n - 1].clone()
    }
}

/// A name without the suffix that bare repositories have.
pub open spec fn without_git(name: Seq<char>) -> Seq<char> {
    if name.len() >= 4 && name.skip(name.len() - 4) == ".git"@ {
        name.take(name.len() - 4)
    } else {
        name
    }
}

/// The name of a repository: that of its working directory, or, for a bare one,
/// that of its git directory without the conventional suffix. A directory that
/// merely holds a dot keeps its full name.
pub fn repository_name(workdir: Option<&str>, git_dir: &str) -> (name: String)
    ensures
        name@ == (match workdir {
            Some(dir) => dir_name(dir@),
            None => without_git(dir_name(git_dir@)),
        }),
{
    match workdir {
        Some(dir) => directory_name(dir),
        None => {
            let name = directory_name(git_dir);
            let chars = to_chars(name.as_str());
            let n: usize = chars.len();
            proof {
                reveal_strlit(".git");
            }
            if n >= 4 {
                let suffix = from_chars(&chars, n - 4, n);
                assert(suffix@ =~= name@.skip(n - 4));
                if same_text(suffix.as_str(), ".git") {
                    let stem = from_chars(&chars, 0, n - 4);
                    assert(stem@ =~= name@.take(n - 4));
                    return stem;
                }
            }
            name
        },
    }
}

/// A path inside a directory. An absolute path is its own.
pub open spec fn inside(dir: Seq<char>, path: Seq<char>) -> Seq<char> {
    if path.len() > 0 && path[0] == '/' {
        path
    } else {
        path_in(dir, path)
    }
}

fn join_inside(dir: &str, path: &str) -> (out: String)
    ensures
        out@ == inside(dir@, path@),
{
    if path.unicode_len() > 0 && path.get_char(0) == '/' {
        path.to_owned()
    } else {
        join_path(dir, path)
    }
}

/// A branch as the remote names it.
pub open spec fn at_origin(branch: Seq<char>) -> Seq<char> {
    "origin/"@ + branch
}

/// A branch as the repository names it.
pub open spec fn short_name(name: Seq<char>) -> Seq<char> {
    if has_prefix(name, "origin/"@) {
        name.skip("origin/"@.len() as int)
    } else {
        name
    }
}

// ---------------------------------------------------------------------------
// The base
// ---------------------------------------------------------------------------

/// What the remote says of its default branch: what its HEAD resolves to, and
/// which of the common names it has.
#[derive(Debug, PartialEq, Eq)]
pub struct DefaultProbe {
    pub head: Option<String>,
    pub has_main: bool,
    pub has_master: bool,
}

/// The default branch.
pub open spec fn default_of(probe: DefaultProbe) -> Option<Seq<char>> {
    match probe.head {
        Some(head) => Some(short_name(head@)),
        None => if probe.has_main {
            Some("main"@)
        } else if probe.has_master {
            Some("master"@)
        } else {
            None
        },
    }
}

/// The short name of the default branch: the remote's HEAD, or else the first of
/// the common names that is there.
pub fn find_default_branch_name(probe: &DefaultProbe) -> (name: Option<String>)
    ensures
        opt_text(name) == default_of(*probe),
{
    match &probe.head {
        Some(head) => {
            if starts_with(head.as_str(), "origin/") {
                let chars = to_chars(head.as_str());
                proof {
                    reveal_strlit("origin/");
                }
                let short = from_chars(&chars, 7, chars.len());
                assert(short@ =~= head@.skip("origin/"@.len() as int));
                Some(short)
            } else {
                Some(head.clone())
            }
        },
        None => if probe.has_main {
            Some("main".to_owned())
        } else if probe.has_master {
            Some("master".to_owned())
        } else {
            None
        },
    }
}

/// What is said of the base of a new worktree.
pub open spec fn base_text(name: Seq<char>, on_remote: bool, default: Option<Seq<char>>) -> Seq<char> {
    if on_remote {
        "Will track "@ + at_origin(name)
    } else {
        match default {
            Some(branch) => "Will be created from "@ + branch + " (default branch)"@,
            None => "Will be created from HEAD"@,
        }
    }
}

// ---------------------------------------------------------------------------
// The repository
// ---------------------------------------------------------------------------

/// What opening a repository told: its working directory, if it has one, and its
/// git directory.
#[derive(Debug, PartialEq, Eq)]
pub struct Opened {
    pub workdir: Option<String>,
    pub git_dir: String,
}

/// A git repository. Its name is read on every frame, so it is worked out once.
#[derive(Debug, PartialEq, Eq)]
pub struct Repository {
    pub name: String,
}

/// The name of a repository that was opened.
pub open spec fn name_of(opened: Opened) -> Seq<char> {
    match opened.workdir {
        Some(dir) => dir_name(dir@),
        None => without_git(dir_name(opened.git_dir@)),
    }
}

impl Repository {
    /// The repository at `path`, or why it could not be opened.
    pub fn from_path(path: &str, opened: Result<Opened, String>) -> (repo: Result<
        Repository,
        String,
    >)
        ensures
            match (opened, repo) {
                (Ok(opened), Ok(repo)) => repo.name@ == name_of(opened),
                (Err(cause), Err(text)) => text@ == "Could not open repository at "@ + path@ + ": "@
                    + cause@,
                _ => false,
            },
    {
        match opened {
            Ok(opened) => {
                let workdir = match &opened.workdir {
                    Some(dir) => Some(dir.as_str()),
                    None => None,
                };
                Ok(Repository { name: repository_name(workdir, opened.git_dir.as_str()) })
            },
            Err(cause) => {
                let mut text = concat("Could not open repository at ", path);
                text.append(": ");
                text.append(cause.as_str());
                Err(text)
            },
        }
    }

    /// The name, borrowed.
    pub fn name_str(&self) -> (name: &str)
        ensures
            name@ == self.name@,
    {
        self.name.as_str()
    }

    pub fn name(&self) -> (name: String)
        ensures
            name == self.name,
    {
        self.name.clone()
    }

    /// What creating a worktree takes, and the first step of it.
    pub fn create_new_worktree(&self, worktree_name: &str, worktrees_dir: &str) -> (start: (
        NewWorktree,
        Step,
    ))
        ensures
            start.0.name@ == worktree_name@,
            start.0.parent@ == inside(worktrees_dir@, self.name@),
            start.0.dir@ == inside(inside(worktrees_dir@, self.name@), worktree_name@),
            start.1 == Step::MakeDir,
    {
        let parent = join_inside(worktrees_dir, self.name_str());
        let dir = join_inside(parent.as_str(), worktree_name);
        (NewWorktree { name: worktree_name.to_owned(), parent, dir }, Step::MakeDir)
    }

    /// Which branch a new worktree would be based on: the remote branch of its
    /// name if there is one, else the default branch, else HEAD.
    pub fn resolve_base_branch(&self, worktree_name: &str, on_remote: bool, default: &DefaultProbe)
        -> (text: String)
        ensures
            text@ == base_text(worktree_name@, on_remote, default_of(*default)),
    {
        if on_remote {
            let remote = concat("origin/", worktree_name);
            return concat("Will track ", remote.as_str());
        }
        match find_default_branch_name(default) {
            Some(branch) => {
                let mut text = concat("Will be created from ", branch.as_str());
                text.append(" (default branch)");
                text
            },
            None => "Will be created from HEAD".to_owned(),
        }
    }

    /// The worktrees of the repository, as they were read.
    pub fn worktrees(&self, probes: &Vec<WorktreeProbe>) -> (worktrees: Vec<Worktree>)
        ensures
            worktrees@ == read_worktrees(probes@),
    {
        let ghost wanted = read_worktrees(probes@);
        let mut out: Vec<Worktree> = Vec::new();
        let mut i: usize = 0;
        while i < probes.len()
            invariant
                i <= probes@.len(),
                wanted == read_worktrees(probes@),
                out@ == wanted.take(i as int),
            decreases probes.len() - i,
        {
            let probe = &probes[i];
            out.push(
                Worktree {
                    name: probe.name.clone(),
                    path: probe.path.clone(),
                    remote_status: remote_status_of_branch(probe.branch),
                    is_dirty: is_worktree_dirty(probe.has_jj, probe.changes),
                },
            );
            assert(out@ =~= wanted.take(i + 1));
            i = i + 1;
        }
        assert(out@ =~= wanted);
        out
    }
}

/// The repositories that could be opened, in order.
pub open spec fn opened_of(opened: Seq<Result<Repository, String>>) -> Seq<Repository>
    decreases opened.len(),
{
    if opened.len() == 0 {
        Seq::empty()
    } else {
        match opened.last() {
            Ok(repo) => opened_of(opened.drop_last()).push(repo),
            Err(_) => opened_of(opened.drop_last()),
        }
    }
}

/// The repositories that could be opened: one that could not does not hide the
/// others.
pub fn list_repositories(opened: &Vec<Result<Repository, String>>) -> (repos: Vec<Repository>)
    ensures
        repos@ == opened_of(opened@),
{
    let mut repos: Vec<Repository> = Vec::new();
    let mut i: usize = 0;
    assert(opened@.take(0) =~= Seq::<Result<Repository, String>>::empty());
    while i < opened.len()
        invariant
            i <= opened@.len(),
            repos@ == opened_of(opened@.take(i as int)),
        decreases opened.len() - i,
    {
        assert(opened@.take(i + 1).drop_last() =~= opened@.take(i as int));
        assert(opened@.take(i + 1).last() == opened@[i as int]);
        if let Ok(repo) = &opened[i] {
            repos.push(Repository { name: repo.name.clone() });
        }
        i = i + 1;
    }
    assert(opened@.take(i as int) =~= opened@);
    repos
}

/// The worktrees of several repositories, one after the other.
pub open spec fn all_worktrees(lists: Seq<Vec<WorktreeProbe>>) -> Seq<Worktree>
    decreases lists.len(),
{
    if lists.len() == 0 {
        Seq::empty()
    } else {
        all_worktrees(lists.drop_last()) + read_worktrees(lists.last()@)
    }
}

/// The worktrees of several repositories, one after the other.
pub fn worktrees_of_repositories(repositories: &Vec<Repository>, probes: &Vec<Vec<WorktreeProbe>>)
    -> (worktrees: Vec<Worktree>)
    requires
        repositories@.len() == probes@.len(),
    ensures
        worktrees@ == all_worktrees(probes@),
{
    let mut out: Vec<Worktree> = Vec::new();
    let mut i: usize = 0;
    assert(probes@.take(0) =~= Seq::<Vec<WorktreeProbe>>::empty());
    while i < repositories.len()
        invariant
            repositories@.len() == probes@.len(),
            i <= probes@.len(),
            out@ == all_worktrees(probes@.take(i as int)),
        decreases repositories.len() - i,
    {
        assert(probes@.take(i + 1).drop_last() =~= probes@.take(i as int));
        assert(probes@.take(i + 1).last() == probes@[i as int]);
        let mut read = repositories[i].worktrees(&probes[i]);
        out.append(&mut read);
        i = i + 1;
    }
    assert(probes@.take(i as int) =~= probes@);
    out
}

// ---------------------------------------------------------------------------
// Creation
// ---------------------------------------------------------------------------

/// A worktree to create.
#[derive(Debug, PartialEq, Eq)]
pub struct NewWorktree {
    pub name: String,
    /// The directory that holds this repository's worktrees.
    pub parent: String,
    /// The directory of the worktree itself.
    pub dir: String,
}

/// One thing to ask of git, or of the disk.
#[derive(Debug, PartialEq, Eq)]
pub enum Step {
    /// Create the directory that holds the worktrees.
    MakeDir,
    /// Look for this remote branch.
    FindRemote(String),
    /// Find the commit this remote branch is at.
    ResolveRemote(String),
    /// Look for a local branch of this name.
    FindLocal,
    /// Create the local branch at the commit of this remote one.
    BranchFromRemote(String),
    /// Let the new branch follow this remote one.
    SetUpstream(String),
    /// Find the default branch.
    FindDefault,
    /// Create the local branch at the commit of this remote branch.
    BranchFrom(String),
    /// Add the worktree, on the local branch or on a new one from HEAD.
    AddWorktree { on_branch: bool },
    /// Look for the branch the worktree is on.
    FindCreated,
}

/// What came back.
#[derive(Debug, PartialEq, Eq)]
pub enum Reply {
    Done,
    /// Not there, or not possible, and why.
    Failed(String),
    /// The default branch, if one could be told.
    Default(Option<String>),
}

/// Where a creation stands.
#[derive(Debug, PartialEq, Eq)]
pub enum Progress {
    Next(Step),
    /// The worktree is there.
    Created,
    /// It is not, and why.
    Stopped(String),
}

/// Why a step that must not fail did.
pub open spec fn stop_text(plan: NewWorktree, step: Step) -> Option<Seq<char>> {
    match step {
        Step::MakeDir => Some("Could not create worktrees directory "@ + debug_of(plan.parent@)),
        Step::ResolveRemote(_) => Some(
            "Could not resolve remote branch '"@ + at_origin(plan.name@) + "'"@,
        ),
        Step::BranchFromRemote(_) => Some(
            "Could not create local branch '"@ + plan.name@ + "' from remote"@,
        ),
        Step::SetUpstream(_) => Some("Could not set upstream for branch '"@ + plan.name@ + "'"@),
        Step::AddWorktree { .. } => Some("Could not create worktree '"@ + plan.name@ + "'"@),
        Step::FindCreated => Some(
            "Could not find branch '"@ + plan.name@ + "' after creating worktree"@,
        ),
        _ => None,
    }
}

fn stop_line(plan: &NewWorktree, step: &Step) -> (text: Option<String>)
    ensures
        opt_text(text) == stop_text(*plan, *step),
{
    let name = plan.name.as_str();
    match step {
        Step::MakeDir => Some(
            concat("Could not create worktrees directory ", quoted(plan.parent.as_str()).as_str()),
        ),
        Step::ResolveRemote(_) => {
            let mut text = concat(
                "Could not resolve remote branch '",
                plan.remote().as_str(),
            );
            text.append("'");
            Some(text)
        },
        Step::BranchFromRemote(_) => {
            let mut text = concat("Could not create local branch '", name);
            text.append("' from remote");
            Some(text)
        },
        Step::SetUpstream(_) => {
            let mut text = concat("Could not set upstream for branch '", name);
            text.append("'");
            Some(text)
        },
        Step::AddWorktree { .. } => {
            let mut text = concat("Could not create worktree '", name);
            text.append("'");
            Some(text)
        },
        Step::FindCreated => {
            let mut text = concat("Could not find branch '", name);
            text.append("' after creating worktree");
            Some(text)
        },
        _ => None,
    }
}

impl NewWorktree {
    /// Whether `progress` is what follows a reply: a branch of the remote is
    /// followed, a local one is taken as it is, and without either the worktree
    /// starts from the default branch, or from HEAD.
    pub open spec fn follows(self, step: Step, reply: Reply, progress: Progress) -> bool {
        match (stop_text(self, step), reply) {
            (Some(text), Reply::Failed(cause)) => progress matches Progress::Stopped(why) && why@
                == text + ": "@ + cause@,
            _ => match step {
                Step::MakeDir => {
                    &&& progress matches Progress::Next(Step::FindRemote(remote))
                    &&& remote@ == at_origin(self.name@)
                },
                Step::FindRemote(_) => if reply is Failed {
                    progress == Progress::Next(Step::FindDefault)
                } else {
                    &&& progress matches Progress::Next(Step::ResolveRemote(remote))
                    &&& remote@ == at_origin(self.name@)
                },
                Step::ResolveRemote(_) => progress == Progress::Next(Step::FindLocal),
                Step::FindLocal => if reply is Failed {
                    &&& progress matches Progress::Next(Step::BranchFromRemote(remote))
                    &&& remote@ == at_origin(self.name@)
                } else {
                    progress == Progress::Next(Step::AddWorktree { on_branch: true })
                },
                Step::BranchFromRemote(_) => {
                    &&& progress matches Progress::Next(Step::SetUpstream(remote))
                    &&& remote@ == at_origin(self.name@)
                },
                Step::SetUpstream(_) => progress == Progress::Next(
                    Step::AddWorktree { on_branch: true },
                ),
                Step::FindDefault => match reply {
                    Reply::Default(Some(branch)) => {
                        &&& progress matches Progress::Next(Step::BranchFrom(remote))
                        &&& remote@ == at_origin(branch@)
                    },
                    _ => progress == Progress::Next(Step::AddWorktree { on_branch: false }),
                },
                Step::BranchFrom(_) => progress == Progress::Next(
                    Step::AddWorktree { on_branch: !(reply is Failed) },
                ),
                Step::AddWorktree { .. } => progress == Progress::Next(Step::FindCreated),
                Step::FindCreated => progress is Created,
            },
        }
    }

    /// The remote branch of the worktree's name.
    fn remote(&self) -> (remote: String)
        ensures
            remote@ == at_origin(self.name@),
    {
        concat("origin/", self.name.as_str())
    }

    /// What follows a reply.
    pub fn after(&self, step: Step, reply: Reply) -> (progress: Progress)
        ensures
            self.follows(step, reply, progress),
    {
        if let Reply::Failed(cause) = &reply {
            if let Some(line) = stop_line(self, &step) {
                let mut text = concat(line.as_str(), ": ");
                text.append(cause.as_str());
                return Progress::Stopped(text);
            }
        }
        let failed = matches!(reply, Reply::Failed(_));
        let next = match step {
            Step::MakeDir => Step::FindRemote(self.remote()),
            Step::FindRemote(_) => if failed {
                Step::FindDefault
            } else {
                Step::ResolveRemote(self.remote())
            },
            Step::ResolveRemote(_) => Step::FindLocal,
            Step::FindLocal => if failed {
                Step::BranchFromRemote(self.remote())
            } else {
                Step::AddWorktree { on_branch: true }
            },
            Step::BranchFromRemote(_) => Step::SetUpstream(self.remote()),
            Step::SetUpstream(_) => Step::AddWorktree { on_branch: true },
            Step::FindDefault => match reply {
                Reply::Default(Some(branch)) => Step::BranchFrom(
                    concat("origin/", branch.as_str()),
                ),
                _ => Step::AddWorktree { on_branch: false },
            },
            Step::BranchFrom(_) => Step::AddWorktree { on_branch: !failed },
            Step::AddWorktree { .. } => Step::FindCreated,
            Step::FindCreated => return Progress::Created,
        };
        Progress::Next(next)
    }

    /// How far along a step is.
    pub open spec fn rank(step: Step) -> nat {
        match step {
            Step::MakeDir => 0,
            Step::FindRemote(_) => 1,
            Step::ResolveRemote(_) => 2,
            Step::FindLocal => 3,
            Step::BranchFromRemote(_) => 4,
            Step::SetUpstream(_) => 5,
            Step::FindDefault => 2,
            Step::BranchFrom(_) => 3,
            Step::AddWorktree { .. } => 6,
            Step::FindCreated => 7,
        }
    }

    /// The worktree that was created: nothing in it has changed yet.
    pub fn created(self, status: RemoteStatus) -> (worktree: Worktree)
        ensures
            worktree == (Worktree {
                name: self.name,
                path: self.dir,
                remote_status: status,
                is_dirty: false,
            }),
    {
        Worktree { name: self.name, path: self.dir, remote_status: status, is_dirty: false }
    }
}

/// Whatever git answers, a creation comes to an end: every step leads to a later
/// one, and the last one to a worktree or to a reason.
pub proof fn law_a_creation_ends(plan: NewWorktree, step: Step, reply: Reply, progress: Progress)
    requires
        plan.follows(step, reply, progress),
    ensures
        progress matches Progress::Next(next) ==> NewWorktree::rank(next) > NewWorktree::rank(step)
            && NewWorktree::rank(next) <= 7,
        step is FindCreated ==> !(progress is Next),
{
}

/// A worktree exists only after every step on the way to it: nothing is reported
/// as created before git was told to add it.
pub proof fn law_created_last(plan: NewWorktree, step: Step, reply: Reply, progress: Progress)
    requires
        plan.follows(step, reply, progress),
        progress is Created,
    ensures
        step is FindCreated,
        !(reply is Failed),
{
}

/// A branch made for a remote one always follows it before the worktree is added.
pub proof fn law_a_tracking_branch_is_tracked(
    plan: NewWorktree,
    made_from: String,
    reply: Reply,
    progress: Progress,
)
    requires
        plan.follows(Step::BranchFromRemote(made_from), reply, progress),
    ensures
        progress is Stopped || (progress matches Progress::Next(Step::SetUpstream(remote))
            && remote@ == at_origin(plan.name@)),
{
}

// ---------------------------------------------------------------------------
// What is said of a worktree
// ---------------------------------------------------------------------------

/// What git says of a branch: whether it has a full name, whether an upstream is
/// configured for it, and whether that upstream is there.
#[derive(Debug, Clone, Copy, PartialEq, Eq, Structural)]
pub struct BranchProbe {
    pub named: bool,
    pub configured: bool,
    pub upstream: bool,
}

/// How a branch stands to its remote.
#[verifier::allow_in_spec]
pub fn remote_status_of_branch(branch: Option<BranchProbe>) -> RemoteStatus
    returns
        (match branch {
            Some(probe) => if !probe.named || !probe.configured {
                RemoteStatus::NeverPushed
            } else if probe.upstream {
                RemoteStatus::Exists
            } else {
                RemoteStatus::Gone
            },
            None => RemoteStatus::NeverPushed,
        }),
{
    match branch {
        Some(probe) => if !probe.named || !probe.configured {
            RemoteStatus::NeverPushed
        } else if probe.upstream {
            RemoteStatus::Exists
        } else {
            RemoteStatus::Gone
        },
        None => RemoteStatus::NeverPushed,
    }
}

/// Whether a worktree holds uncommitted changes: how many git counted, if it
/// could. A directory that jj drives is jj's to judge.
#[verifier::allow_in_spec]
pub fn is_worktree_dirty(has_jj: bool, changes: Option<usize>) -> bool
    returns
        (!has_jj && (match changes {
            Some(n) => n > 0,
            None => false,
        })),
{
    !has_jj && (match changes {
        Some(n) => n > 0,
        None => false,
    })
}

/// What was read of one worktree.
#[derive(Debug, PartialEq, Eq)]
pub struct WorktreeProbe {
    pub name: String,
    pub path: String,
    pub branch: Option<BranchProbe>,
    pub has_jj: bool,
    pub changes: Option<usize>,
}

/// The worktree a probe describes.
pub open spec fn worktree_of(probe: WorktreeProbe) -> Worktree {
    Worktree {
        name: probe.name,
        path: probe.path,
        remote_status: remote_status_of_branch(probe.branch),
        is_dirty: is_worktree_dirty(probe.has_jj, probe.changes),
    }
}

/// The worktrees some probes describe, in order.
pub open spec fn read_worktrees(probes: Seq<WorktreeProbe>) -> Seq<Worktree> {
    probes.map_values(|probe: WorktreeProbe| worktree_of(probe))
}

} // verus!
