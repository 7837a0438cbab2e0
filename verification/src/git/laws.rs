//! What holds of the creation of a worktree, step by step and as a whole.

use vstd::prelude::*;

use super::repository::{
    at_origin, base_text, default_of, dir_name, inside, name_of, opened_of, read_worktrees,
    real_parts, short_name, without_git, DefaultProbe, NewWorktree, Opened, Progress, Reply,
    Repository, Step, WorktreeProbe,
};
use super::RemoteStatus;
use crate::github::{opt_text, path_in};
use crate::text::{debug_of, has_prefix, head_of, lemma_upto, parts_of, tail_of, upto};

verus! {

// ---------------------------------------------------------------------------
// Step by step
// ---------------------------------------------------------------------------

/// A local branch is created for a remote one only where none was found; one that
/// is there is taken as it is.
pub proof fn law_a_branch_is_made_only_where_there_is_none(
    plan: NewWorktree,
    reply: Reply,
    progress: Progress,
)
    requires
        plan.follows(Step::FindLocal, reply, progress),
    ensures
        progress matches Progress::Next(step) && (step is BranchFromRemote <==> reply is Failed),
        !(reply is Failed) ==> progress == Progress::Next(Step::AddWorktree { on_branch: true }),
        progress matches Progress::Next(Step::BranchFromRemote(remote)) ==> remote@ == "origin/"@
            + plan.name@,
{
}

/// A branch that the remote has is followed; one that it has not leads to the
/// default branch.
pub proof fn law_a_branch_of_the_remote_is_followed(
    plan: NewWorktree,
    asked: String,
    reply: Reply,
    progress: Progress,
)
    requires
        plan.follows(Step::FindRemote(asked), reply, progress),
    ensures
        reply is Failed <==> progress == Progress::Next(Step::FindDefault),
        !(reply is Failed) <==> (progress matches Progress::Next(Step::ResolveRemote(remote))
            && remote@ == "origin/"@ + plan.name@),
{
}

/// Without a branch of its name a worktree starts from the default branch of the
/// remote, and without that one from HEAD: then it is on no branch made before.
pub proof fn law_a_new_branch_starts_from_the_default_one(
    plan: NewWorktree,
    made_from: String,
    reply: Reply,
    progress: Progress,
)
    ensures
        plan.follows(Step::FindDefault, reply, progress) ==> match reply {
            Reply::Default(Some(branch)) => progress matches Progress::Next(
                Step::BranchFrom(remote),
            ) && remote@ == "origin/"@ + branch@,
            _ => progress == Progress::Next(Step::AddWorktree { on_branch: false }),
        },
        plan.follows(Step::BranchFrom(made_from), reply, progress) ==> progress == Progress::Next(
            Step::AddWorktree { on_branch: !(reply is Failed) },
        ),
{
}

/// The steps that a worktree cannot do without end the creation where they fail,
/// and the reason git gave is told.
pub proof fn law_a_step_that_must_not_fail_ends_the_creation(
    plan: NewWorktree,
    step: Step,
    cause: String,
    progress: Progress,
)
    requires
        plan.follows(step, Reply::Failed(cause), progress),
    ensures
        progress is Stopped <==> step is MakeDir || step is ResolveRemote || step
            is BranchFromRemote || step is SetUpstream || step is AddWorktree || step is FindCreated,
        progress matches Progress::Stopped(why) ==> {
            let name = plan.name@;
            &&& step is MakeDir ==> why@ == "Could not create worktrees directory "@ + debug_of(
                plan.parent@,
            ) + ": "@ + cause@
            &&& step is ResolveRemote ==> why@ == "Could not resolve remote branch '"@ + ("origin/"@
                + name) + "'"@ + ": "@ + cause@
            &&& step is BranchFromRemote ==> why@ == "Could not create local branch '"@ + name
                + "' from remote"@ + ": "@ + cause@
            &&& step is SetUpstream ==> why@ == "Could not set upstream for branch '"@ + name + "'"@
                + ": "@ + cause@
            &&& step is AddWorktree ==> why@ == "Could not create worktree '"@ + name + "'"@ + ": "@
                + cause@
            &&& step is FindCreated ==> why@ == "Could not find branch '"@ + name
                + "' after creating worktree"@ + ": "@ + cause@
        },
        !(progress is Created),
{
}

/// Where nothing fails one step leads to the next: the directory, the remote
/// branch, the local one, its upstream, the worktree, and a last look.
pub proof fn law_a_creation_goes_on(plan: NewWorktree, step: Step, reply: Reply, progress: Progress)
    requires
        plan.follows(step, reply, progress),
        !(reply is Failed),
    ensures
        step is MakeDir ==> (progress matches Progress::Next(Step::FindRemote(remote)) && remote@
            == "origin/"@ + plan.name@),
        step is ResolveRemote ==> progress == Progress::Next(Step::FindLocal),
        step is BranchFromRemote ==> (progress matches Progress::Next(Step::SetUpstream(remote))
            && remote@ == "origin/"@ + plan.name@),
        step is SetUpstream ==> progress == Progress::Next(Step::AddWorktree { on_branch: true }),
        step is AddWorktree ==> progress == Progress::Next(Step::FindCreated),
        step is FindCreated <==> progress is Created,
        !(progress is Stopped),
{
}

// ---------------------------------------------------------------------------
// Whole runs
// ---------------------------------------------------------------------------

/// Whether these steps were taken one after the other, with these replies.
pub open spec fn is_run(plan: NewWorktree, steps: Seq<Step>, replies: Seq<Reply>) -> bool {
    &&& steps.len() == replies.len()
    &&& steps.len() > 0
    &&& steps[0] == Step::MakeDir
    &&& forall|i: int|
        0 < i < steps.len() ==> plan.follows(
            steps[i - 1],
            replies[i - 1],
            Progress::Next(#[trigger] steps[i]),
        )
}

/// Whether git answers as one where the branch is, or is not, on the remote and
/// in the repository.
pub open spec fn is_answered(
    steps: Seq<Step>,
    replies: Seq<Reply>,
    on_remote: bool,
    here: bool,
) -> bool {
    forall|i: int|
        0 <= i < steps.len() ==> match #[trigger] steps[i] {
            Step::FindRemote(_) => replies[i] is Failed <==> !on_remote,
            Step::FindLocal => replies[i] is Failed <==> !here,
            _ => true,
        }
}

/// Where the branch is on the remote and in the repository, no run ever asks for
/// a branch to be created, and the worktree is added on the one that is there.
pub proof fn law_an_existing_branch_is_never_made_again(
    plan: NewWorktree,
    steps: Seq<Step>,
    replies: Seq<Reply>,
    k: int,
)
    requires
        is_run(plan, steps, replies),
        is_answered(steps, replies, true, true),
        0 <= k < steps.len(),
    ensures
        !(steps[k] is BranchFromRemote),
        !(steps[k] is BranchFrom),
        steps[k] matches Step::AddWorktree { on_branch } ==> on_branch,
    decreases k,
{
    lemma_before(plan, steps, replies, k);
    if k > 0 {
        law_an_existing_branch_is_never_made_again(plan, steps, replies, k - 1);
        if k > 1 {
            lemma_before(plan, steps, replies, k - 1);
            law_an_existing_branch_is_never_made_again(plan, steps, replies, k - 2);
        }
    }
}

/// Where the branch is on the remote alone, it is made at the commit of the
/// remote one, and follows it before the worktree is added on it.
pub proof fn law_a_branch_of_the_remote_is_made_and_followed(
    plan: NewWorktree,
    steps: Seq<Step>,
    replies: Seq<Reply>,
    k: int,
)
    requires
        is_run(plan, steps, replies),
        is_answered(steps, replies, true, false),
        0 <= k < steps.len(),
        steps[k] is AddWorktree,
    ensures
        k >= 2,
        steps[k] == (Step::AddWorktree { on_branch: true }),
        steps[k - 1] matches Step::SetUpstream(remote) && remote@ == "origin/"@ + plan.name@,
        steps[k - 2] matches Step::BranchFromRemote(remote) && remote@ == "origin/"@ + plan.name@,
{
    lemma_before(plan, steps, replies, k);
    lemma_before(plan, steps, replies, k - 1);
    if k > 1 {
        lemma_before(plan, steps, replies, k - 2);
    }
}

/// Where the remote has no such branch, nothing of the remote is followed: the
/// worktree is on a branch only where that was made from the default one.
pub proof fn law_a_new_branch_follows_nothing(
    plan: NewWorktree,
    steps: Seq<Step>,
    replies: Seq<Reply>,
    here: bool,
    k: int,
)
    requires
        is_run(plan, steps, replies),
        is_answered(steps, replies, false, here),
        0 <= k < steps.len(),
    ensures
        !(steps[k] is ResolveRemote),
        !(steps[k] is FindLocal),
        !(steps[k] is BranchFromRemote),
        !(steps[k] is SetUpstream),
        steps[k] matches Step::AddWorktree { on_branch } ==> k > 0 && (on_branch <==> steps[k - 1]
            is BranchFrom && !(replies[k - 1] is Failed)),
    decreases k,
{
    lemma_before(plan, steps, replies, k);
    if k > 0 {
        law_a_new_branch_follows_nothing(plan, steps, replies, here, k - 1);
    }
}

/// A creation in which nothing fails, of a branch that is on the remote and in
/// the repository, takes these six steps, and then the worktree is there.
pub proof fn law_a_creation_succeeds(plan: NewWorktree, steps: Seq<Step>, replies: Seq<Reply>)
    requires
        is_run(plan, steps, replies),
        forall|i: int| 0 <= i < replies.len() ==> #[trigger] replies[i] == Reply::Done,
    ensures
        steps.len() <= 6,
        steps.len() > 1 ==> steps[1] is FindRemote,
        steps.len() > 2 ==> steps[2] is ResolveRemote,
        steps.len() > 3 ==> steps[3] is FindLocal,
        steps.len() > 4 ==> steps[4] == (Step::AddWorktree { on_branch: true }),
        steps.len() > 5 ==> steps[5] is FindCreated,
        forall|progress: Progress|
            steps.len() == 6 && #[trigger] plan.follows(steps[5], replies[5], progress) ==> progress
                is Created,
{
    if steps.len() > 1 {
        lemma_before(plan, steps, replies, 1);
    }
    if steps.len() > 2 {
        lemma_before(plan, steps, replies, 2);
    }
    if steps.len() > 3 {
        lemma_before(plan, steps, replies, 3);
    }
    if steps.len() > 4 {
        lemma_before(plan, steps, replies, 4);
    }
    if steps.len() > 5 {
        lemma_before(plan, steps, replies, 5);
    }
    if steps.len() > 6 {
        lemma_before(plan, steps, replies, 6);
    }
}

/// What a step of a run was led to by.
proof fn lemma_before(plan: NewWorktree, steps: Seq<Step>, replies: Seq<Reply>, k: int)
    requires
        is_run(plan, steps, replies),
        0 <= k < steps.len(),
    ensures
        k == 0 <==> steps[k] is MakeDir,
        k > 0 ==> plan.follows(steps[k - 1], replies[k - 1], Progress::Next(steps[k])),
{
    if k > 0 {
        assert(plan.follows(steps[k - 1], replies[k - 1], Progress::Next(steps[k])));
    }
}

// ---------------------------------------------------------------------------
// Names and bases
// ---------------------------------------------------------------------------

/// A worktree stands in the directory of its repository, under the directory that
/// holds them all.
pub proof fn law_a_worktree_stands_under_its_repository(
    worktrees_dir: Seq<char>,
    repo: Seq<char>,
    name: Seq<char>,
)
    requires
        worktrees_dir.len() > 0,
        worktrees_dir.last() != '/',
        repo.len() > 0,
        repo[0] != '/',
        repo.last() != '/',
        name.len() > 0,
        name[0] != '/',
    ensures
        inside(inside(worktrees_dir, repo), name) == worktrees_dir + "/"@ + repo + "/"@ + name,
{
    reveal_strlit("/");
    let parent = worktrees_dir + "/"@ + repo;
    assert(inside(worktrees_dir, repo) == parent);
    assert(parent.last() == repo.last());
}

/// The default branch is the one the remote's HEAD names, without the remote's
/// own name before it; where HEAD names none it is `main`, and only without that
/// one `master`.
pub proof fn law_the_default_branch(probe: DefaultProbe, branch: Seq<char>)
    ensures
        probe.head matches Some(head) && head@ == "origin/"@ + branch ==> default_of(probe) == Some(
            branch,
        ),
        probe.head matches Some(head) && !has_prefix(head@, "origin/"@) ==> default_of(probe)
            == Some(probe.head->0@),
        probe.head is None && probe.has_main ==> default_of(probe) == Some("main"@),
        probe.head is None && !probe.has_main && probe.has_master ==> default_of(probe) == Some(
            "master"@,
        ),
        probe.head is None && !probe.has_main && !probe.has_master ==> default_of(probe) is None,
{
    let prefix = "origin/"@;
    if let Some(head) = probe.head {
        if head@ == prefix + branch {
            assert(head@.take(prefix.len() as int) =~= prefix);
            assert(head@.skip(prefix.len() as int) =~= branch);
            assert(has_prefix(head@, prefix));
        }
    }
}

/// What the user is told of the base is what the creation does: it follows the
/// remote branch of the name where there is one, and else starts from the default
/// branch, or from HEAD.
pub proof fn law_what_is_said_is_what_is_done(
    plan: NewWorktree,
    probe: DefaultProbe,
    told: Option<String>,
    asked: String,
    found: Reply,
    followed: Progress,
    based: Progress,
)
    requires
        plan.follows(Step::FindRemote(asked), found, followed),
        plan.follows(Step::FindDefault, Reply::Default(told), based),
        opt_text(told) == default_of(probe),
    ensures
        ({
            let said = base_text(plan.name@, !(found is Failed), default_of(probe));
            &&& !(found is Failed) ==> (followed matches Progress::Next(Step::ResolveRemote(remote))
                && said == "Will track "@ + remote@)
            &&& found is Failed && told is Some ==> (based matches Progress::Next(
                Step::BranchFrom(remote),
            ) && remote@ == "origin/"@ + told->0@ && said == "Will be created from "@ + told->0@
                + " (default branch)"@)
            &&& found is Failed && told is None ==> based == Progress::Next(
                Step::AddWorktree { on_branch: false },
            ) && said == "Will be created from HEAD"@
        }),
{
}

/// A branch read off the remote and named as the remote names it is the same.
pub proof fn law_a_remote_name_reads_back(branch: Seq<char>)
    ensures
        short_name(at_origin(branch)) == branch,
        at_origin(branch) == "origin/"@ + branch,
{
    let prefix = "origin/"@;
    let name = at_origin(branch);
    assert(name.take(prefix.len() as int) =~= prefix);
    assert(name.skip(prefix.len() as int) =~= branch);
    assert(has_prefix(name, prefix));
}

// ---------------------------------------------------------------------------
// What is there
// ---------------------------------------------------------------------------

/// Every worktree that was read is listed, in order, under its own name and path;
/// it is dirty only where git counted changes and jj does not drive it, and it has
/// an upstream only where its branch is set to follow one.
pub proof fn law_every_worktree_is_listed(probes: Seq<WorktreeProbe>, i: int)
    requires
        0 <= i < probes.len(),
    ensures
        read_worktrees(probes).len() == probes.len(),
        ({
            let worktree = read_worktrees(probes)[i];
            let probe = probes[i];
            &&& worktree.name == probe.name
            &&& worktree.path == probe.path
            &&& worktree.is_dirty <==> !probe.has_jj && probe.changes is Some && probe.changes->0
                > 0
            &&& worktree.remote_status == RemoteStatus::Exists <==> probe.branch is Some
                && probe.branch->0.named && probe.branch->0.configured && probe.branch->0.upstream
            &&& worktree.remote_status == RemoteStatus::Gone <==> probe.branch is Some
                && probe.branch->0.named && probe.branch->0.configured && !probe.branch->0.upstream
        }),
{
}

/// A repository that could not be opened hides no other: those that could are all
/// listed, and nothing else is.
pub proof fn law_an_unopened_repository_hides_no_other(
    opened: Seq<Result<Repository, String>>,
    repo: Repository,
)
    ensures
        opened_of(opened).contains(repo) <==> opened.contains(Ok::<Repository, String>(repo)),
    decreases opened.len(),
{
    if opened.len() > 0 {
        let rest = opened.drop_last();
        law_an_unopened_repository_hides_no_other(rest, repo);
        let all = opened_of(opened);
        let some = opened_of(rest);
        let wanted = Ok::<Repository, String>(repo);
        if opened.contains(wanted) {
            let k = choose|k: int| 0 <= k < opened.len() && opened[k] == wanted;
            if k < rest.len() {
                assert(rest[k] == wanted);
                let j = choose|j: int| 0 <= j < some.len() && some[j] == repo;
                assert(all[j] == repo);
            } else {
                assert(all.last() == repo);
            }
        }
        if all.contains(repo) {
            let j = choose|j: int| 0 <= j < all.len() && all[j] == repo;
            if j < some.len() {
                assert(some[j] == repo);
                let k = choose|k: int| 0 <= k < rest.len() && rest[k] == wanted;
                assert(opened[k] == wanted);
            } else {
                assert(opened.last() == wanted);
                assert(opened[opened.len() - 1] == wanted);
            }
        }
    }
}

/// A name inside a directory is the directory, one separator, and the name.
pub proof fn law_a_path_has_one_separator(dir: Seq<char>, name: Seq<char>)
    requires
        dir.len() > 0,
    ensures
        dir.last() == '/' ==> path_in(dir, name) == dir + name,
        dir.last() != '/' ==> path_in(dir, name) == dir + "/"@ + name,
{
}

// ---------------------------------------------------------------------------
// Names
// ---------------------------------------------------------------------------

proof fn lemma_parts_behind(head: Seq<char>, c: char, last: Seq<char>)
    requires
        !last.contains(c),
    ensures
        parts_of(head + seq![c] + last, c) == parts_of(head, c).push(last),
    decreases head.len(),
{
    let whole = head + seq![c] + last;
    lemma_upto(head, c);
    lemma_upto(whole, c);
    lemma_upto(last, c);
    let n = upto(head, c) as int;
    let m = upto(whole, c) as int;
    assert(m == n) by {
        if m < n {
            assert(whole[m] == head[m]);
        } else if n < m {
            if n < head.len() {
                assert(whole[n] == head[n]);
            } else {
                assert(whole[n] == c);
            }
        }
    }
    assert(head_of(whole, c) =~= head.take(n));
    if n < head.len() {
        let rest = head.skip(n + 1);
        assert(whole.skip(n + 1) =~= rest + seq![c] + last);
        lemma_parts_behind(rest, c, last);
        assert(parts_of(whole, c) =~= parts_of(head, c).push(last));
    } else {
        assert(head.take(n) =~= head);
        assert(whole.skip(n + 1) =~= last);
        assert(upto(last, c) == last.len()) by {
            if upto(last, c) < last.len() {
                assert(last[upto(last, c) as int] == c);
            }
        }
        assert(tail_of(last, c) is None && tail_of(head, c) is None);
        assert(parts_of(last, c) == seq![last]);
        assert(tail_of(whole, c) == Some(last));
        assert(parts_of(whole, c) == seq![head] + parts_of(last, c));
        assert(parts_of(head, c) == seq![head]);
        assert(parts_of(whole, c) =~= parts_of(head, c).push(last));
    }
}

/// A directory is named by the last component of its path, with or without a
/// separator or a dot behind it.
pub proof fn law_a_directory_is_named_by_its_last_component(above: Seq<char>, name: Seq<char>)
    requires
        name.len() > 0,
        !name.contains('/'),
        name != seq!['.'],
        name != seq!['.', '.'],
    ensures
        dir_name(above + seq!['/'] + name) == name,
        dir_name(above + seq!['/'] + name + seq!['/'] + Seq::<char>::empty()) == name,
        dir_name(above + seq!['/'] + name + seq!['/'] + seq!['.']) == name,
{
    reveal_strlit(".");
    reveal_strlit("..");
    assert("."@ =~= seq!['.']);
    assert(".."@ =~= seq!['.', '.']);
    let path = above + seq!['/'] + name;
    lemma_parts_behind(above, '/', name);
    let parts = parts_of(path, '/');
    assert(parts.last() == name);
    lemma_parts_behind(path, '/', Seq::<char>::empty());
    lemma_parts_behind(path, '/', seq!['.']);
    let slashed = parts_of(path + seq!['/'] + Seq::<char>::empty(), '/');
    let dotted = parts_of(path + seq!['/'] + seq!['.'], '/');
    assert(slashed.drop_last() =~= parts);
    assert(dotted.drop_last() =~= parts);
    assert(real_parts(parts) == parts.len());
    assert(real_parts(slashed) == parts.len());
    assert(real_parts(dotted) == parts.len());
}

/// A repository is named by its working directory; a bare one by its git directory,
/// less the suffix such directories have.
pub proof fn law_a_bare_repository_loses_its_suffix(opened: Opened, base: Seq<char>)
    ensures
        opened.workdir matches Some(dir) ==> name_of(opened) == dir_name(dir@),
        opened.workdir is None ==> name_of(opened) == without_git(dir_name(opened.git_dir@)),
        without_git(base + ".git"@) == base,
        (base.len() < 4 || base.skip(base.len() - 4) != seq!['.', 'g', 'i', 't']) ==> without_git(
            base,
        ) == base,
{
    reveal_strlit(".git");
    assert(".git"@ =~= seq!['.', 'g', 'i', 't']);
    let whole = base + ".git"@;
    assert(whole.skip(whole.len() - 4) =~= ".git"@);
    assert(whole.take(whole.len() - 4) =~= base);
}

} // verus!
