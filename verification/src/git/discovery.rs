//! Finding git repositories beneath a directory.
//!
//! The walk says which directory to read next, and takes what was read. A
//! repository ends the descent: nothing beneath it is looked at.

use vstd::prelude::*;

use crate::text::same_text;

verus! {

/// One entry of a directory.
#[derive(Debug, PartialEq, Eq)]
pub struct Entry {
    pub name: String,
    pub path: String,
    pub is_dir: bool,
}

/// Whether a directory with these entries is a git repository.
pub open spec fn has_git(entries: Seq<Entry>) -> bool {
    exists|i: int| 0 <= i < entries.len() && #[trigger] entries[i].name@ == ".git"@
}

/// Whether a directory with these entries is a git repository. A `.git` file
/// counts: it is what a worktree has.
pub fn is_git_dir(entries: &Vec<Entry>) -> (yes: bool)
    ensures
        yes == has_git(entries@),
{
    let mut i: usize = 0;
    while i < entries.len()
        invariant
            i <= entries@.len(),
            forall|k: int| 0 <= k < i ==> (#[trigger] entries@[k]).name@ != ".git"@,
        decreases entries.len() - i,
    {
        if same_text(entries[i].name.as_str(), ".git") {
            assert(entries@[i as int].name@ == ".git"@);
            return true;
        }
        i = i + 1;
    }
    false
}

/// Whether a directory is one of those that are not to be searched.
pub fn is_excluded(dir: &str, excluded: &Vec<String>) -> (yes: bool)
    ensures
        yes == exists|i: int| 0 <= i < excluded@.len() && #[trigger] excluded@[i]@ == dir@,
{
    let mut i: usize = 0;
    while i < excluded.len()
        invariant
            i <= excluded@.len(),
            forall|k: int| 0 <= k < i ==> #[trigger] excluded@[k]@ != dir@,
        decreases excluded.len() - i,
    {
        if same_text(excluded[i].as_str(), dir) {
            assert(excluded@[i as int]@ == dir@);
            return true;
        }
        i = i + 1;
    }
    false
}

/// The paths of the directories among some entries, in order.
pub open spec fn dirs_among(entries: Seq<Entry>) -> Seq<String>
    decreases entries.len(),
{
    if entries.len() == 0 {
        Seq::empty()
    } else if entries[0].is_dir {
        seq![entries[0].path] + dirs_among(entries.drop_first())
    } else {
        dirs_among(entries.drop_first())
    }
}

/// A walk in progress.
#[derive(Debug, PartialEq, Eq)]
pub struct Walk {
    /// The directories still to be read, the next one last.
    pub pending: Vec<String>,
    /// The repositories found so far.
    pub git_dirs: Vec<String>,
}

impl Walk {
    /// The directories still to be read, the next one first.
    pub open spec fn ahead(self) -> Seq<String> {
        self.pending@.reverse()
    }

    /// A walk of the directory at `path`.
    pub fn find_git_dirs(path: &str) -> (walk: Walk)
        ensures
            walk.ahead().len() == 1,
            walk.ahead()[0]@ == path@,
            walk.git_dirs@.len() == 0,
    {
        let mut pending: Vec<String> = Vec::new();
        pending.push(path.to_owned());
        Walk { pending, git_dirs: Vec::new() }
    }

    /// The directory to read next, if any is left.
    pub fn next_dir(&self) -> (dir: Option<&str>)
        ensures
            match dir {
                Some(dir) => self.ahead().len() > 0 && dir@ == self.ahead()[0]@,
                None => self.ahead().len() == 0,
            },
    {
        let n: usize = self.pending.len();
        if n == 0 {
            None
        } else {
            assert(self.ahead()[0] == self.pending@[n - 1]);
            Some(self.pending[n - 1].as_str())
        }
    }

    /// Whether `next` is this walk after the next directory was read: a repository
    /// is found and not searched further, and in the place of any other directory
    /// come those it holds.
    pub open spec fn visited(self, entries: Option<Seq<Entry>>, next: Walk) -> bool {
        match entries {
            None => next.ahead() == self.ahead().drop_first() && next.git_dirs@ == self.git_dirs@,
            Some(entries) => if has_git(entries) {
                &&& next.ahead() == self.ahead().drop_first()
                &&& next.git_dirs@ == self.git_dirs@.push(self.ahead()[0])
            } else {
                &&& next.ahead() == dirs_among(entries) + self.ahead().drop_first()
                &&& next.git_dirs@ == self.git_dirs@
            },
        }
    }

    /// Takes what was read of the next directory: `None` where it could not be
    /// read, or is no directory.
    pub fn visit(&mut self, entries: Option<Vec<Entry>>)
        requires
            old(self).ahead().len() > 0,
        ensures
            old(self).visited(
                match entries {
                    Some(entries) => Some(entries@),
                    None => None,
                },
                *final(self),
            ),
    {
        let ghost before = self.pending@;
        let dir = match self.pending.pop() {
            Some(dir) => dir,
            None => return,
        };
        let ghost rest = self.pending@;
        assert(rest.reverse() =~= before.reverse().drop_first());
        assert(before.reverse()[0] == dir);
        let entries = match entries {
            Some(entries) => entries,
            None => return,
        };
        if is_git_dir(&entries) {
            self.git_dirs.push(dir);
            return;
        }
        let mut i: usize = entries.len();
        assert(entries@.skip(i as int) =~= Seq::<Entry>::empty());
        assert(dirs_among(entries@.skip(i as int)) + rest.reverse() =~= rest.reverse());
        while i > 0
            invariant
                i <= entries@.len(),
                self.git_dirs == old(self).git_dirs,
                self.pending@.reverse() == dirs_among(entries@.skip(i as int)) + rest.reverse(),
            decreases i,
        {
            let ghost was = self.pending@;
            let ghost shorter = entries@.skip(i as int);
            i = i - 1;
            let ghost longer = entries@.skip(i as int);
            assert(longer.drop_first() =~= shorter);
            assert(longer[0] == entries@[i as int]);
            if entries[i].is_dir {
                self.pending.push(entries[i].path.clone());
                assert(self.pending@.reverse() =~= seq![entries@[i as int].path] + was.reverse());
                assert(self.pending@.reverse() =~= dirs_among(longer) + rest.reverse());
            }
        }
        assert(entries@.skip(0) =~= entries@);
    }
}

// ---------------------------------------------------------------------------
// Laws
// ---------------------------------------------------------------------------

/// What a disk holds: the entries of every directory that can be read.
pub type Disk = spec_fn(Seq<char>) -> Option<Seq<Entry>>;

/// The repositories under a directory, down to `depth` directories below it: the
/// directory itself if it is one, else those under the directories it holds.
pub open spec fn git_dirs_under(disk: Disk, dir: String, depth: nat) -> Seq<String>
    decreases depth, 0nat,
{
    match disk(dir@) {
        None => Seq::empty(),
        Some(entries) => if has_git(entries) {
            seq![dir]
        } else if depth == 0 {
            Seq::empty()
        } else {
            git_dirs_under_each(disk, dirs_among(entries), (depth - 1) as nat)
        },
    }
}

/// The repositories under each of some directories, one after the other.
pub open spec fn git_dirs_under_each(disk: Disk, dirs: Seq<String>, depth: nat) -> Seq<String>
    decreases depth, dirs.len() + 1,
{
    if dirs.len() == 0 {
        Seq::empty()
    } else {
        git_dirs_under(disk, dirs[0], depth) + git_dirs_under_each(disk, dirs.drop_first(), depth)
    }
}

/// Whether no directory to be searched lies more than `depth` below `dir`.
pub open spec fn is_within(disk: Disk, dir: String, depth: nat) -> bool
    decreases depth,
{
    match disk(dir@) {
        None => true,
        Some(entries) => {
            ||| has_git(entries)
            ||| dirs_among(entries).len() == 0
            ||| depth > 0 && forall|i: int|
                0 <= i < dirs_among(entries).len() ==> is_within(
                    disk,
                    #[trigger] dirs_among(entries)[i],
                    (depth - 1) as nat,
                )
        },
    }
}

/// Whether no directory to be searched lies more than `depth` below any of these.
pub open spec fn are_within(disk: Disk, dirs: Seq<String>, depth: nat) -> bool {
    forall|i: int| 0 <= i < dirs.len() ==> is_within(disk, #[trigger] dirs[i], depth)
}

proof fn lemma_deeper_finds_no_more(disk: Disk, dir: String, depth: nat)
    requires
        is_within(disk, dir, depth),
    ensures
        is_within(disk, dir, depth + 1),
        git_dirs_under(disk, dir, depth + 1) == git_dirs_under(disk, dir, depth),
    decreases depth, 0nat,
{
    if let Some(entries) = disk(dir@) {
        let dirs = dirs_among(entries);
        if !has_git(entries) {
            if dirs.len() > 0 {
                assert(are_within(disk, dirs, (depth - 1) as nat));
                lemma_deeper_finds_no_more_each(disk, dirs, (depth - 1) as nat);
                assert((depth - 1) as nat + 1 == depth);
            } else {
                assert(git_dirs_under_each(disk, dirs, depth) =~= Seq::<String>::empty());
                if depth > 0 {
                    assert(git_dirs_under_each(disk, dirs, (depth - 1) as nat) =~= Seq::<
                        String,
                    >::empty());
                }
            }
        }
    }
}

proof fn lemma_deeper_finds_no_more_each(disk: Disk, dirs: Seq<String>, depth: nat)
    requires
        are_within(disk, dirs, depth),
    ensures
        are_within(disk, dirs, depth + 1),
        git_dirs_under_each(disk, dirs, depth + 1) == git_dirs_under_each(disk, dirs, depth),
    decreases depth, dirs.len() + 1,
{
    if dirs.len() > 0 {
        let rest = dirs.drop_first();
        assert(is_within(disk, dirs[0], depth));
        lemma_deeper_finds_no_more(disk, dirs[0], depth);
        assert forall|i: int| 0 <= i < rest.len() implies is_within(
            disk,
            #[trigger] rest[i],
            depth,
        ) by {
            assert(rest[i] == dirs[i + 1]);
        }
        lemma_deeper_finds_no_more_each(disk, rest, depth);
        assert forall|i: int| 0 <= i < dirs.len() implies is_within(
            disk,
            #[trigger] dirs[i],
            depth + 1,
        ) by {
            if i > 0 {
                assert(dirs[i] == rest[i - 1]);
            }
        }
    }
}

proof fn lemma_under_two(disk: Disk, a: Seq<String>, b: Seq<String>, depth: nat)
    ensures
        git_dirs_under_each(disk, a + b, depth) == git_dirs_under_each(disk, a, depth)
            + git_dirs_under_each(disk, b, depth),
    decreases a.len(),
{
    if a.len() == 0 {
        assert(a + b =~= b);
        assert(git_dirs_under_each(disk, a, depth) + git_dirs_under_each(disk, b, depth)
            =~= git_dirs_under_each(disk, b, depth));
    } else {
        assert((a + b).drop_first() =~= a.drop_first() + b);
        lemma_under_two(disk, a.drop_first(), b, depth);
        let head = git_dirs_under(disk, a[0], depth);
        assert(head + (git_dirs_under_each(disk, a.drop_first(), depth) + git_dirs_under_each(
            disk,
            b,
            depth,
        )) =~= head + git_dirs_under_each(disk, a.drop_first(), depth) + git_dirs_under_each(
            disk,
            b,
            depth,
        ));
    }
}

/// Reading one directory loses nothing and finds nothing twice: what is found and
/// what is still to be found stay the same together.
pub proof fn law_a_visit_loses_nothing(disk: Disk, walk: Walk, next: Walk, depth: nat)
    requires
        walk.ahead().len() > 0,
        walk.visited(disk(walk.ahead()[0]@), next),
        are_within(disk, walk.ahead(), depth),
    ensures
        next.git_dirs@ + git_dirs_under_each(disk, next.ahead(), depth) == walk.git_dirs@
            + git_dirs_under_each(disk, walk.ahead(), depth),
        are_within(disk, next.ahead(), depth),
{
    let dir = walk.ahead()[0];
    let rest = walk.ahead().drop_first();
    let later = git_dirs_under_each(disk, rest, depth);
    assert(is_within(disk, walk.ahead()[0], depth));
    assert forall|i: int| 0 <= i < rest.len() implies is_within(
        disk,
        #[trigger] rest[i],
        depth,
    ) by {
        assert(rest[i] == walk.ahead()[i + 1]);
    }
    assert(git_dirs_under_each(disk, walk.ahead(), depth) == git_dirs_under(disk, dir, depth)
        + later);
    match disk(dir@) {
        None => {
            assert(Seq::<String>::empty() + later =~= later);
        },
        Some(entries) => {
            if has_git(entries) {
                assert(walk.git_dirs@.push(dir) + later =~= walk.git_dirs@ + (seq![dir] + later));
            } else {
                let dirs = dirs_among(entries);
                lemma_under_two(disk, dirs, rest, depth);
                if dirs.len() > 0 {
                    assert(are_within(disk, dirs, (depth - 1) as nat));
                    lemma_deeper_finds_no_more_each(disk, dirs, (depth - 1) as nat);
                    assert((depth - 1) as nat + 1 == depth);
                    assert(git_dirs_under(disk, dir, depth) == git_dirs_under_each(
                        disk,
                        dirs,
                        (depth - 1) as nat,
                    ));
                } else {
                    assert(git_dirs_under_each(disk, dirs, depth) =~= Seq::<String>::empty());
                    if depth > 0 {
                        assert(git_dirs_under_each(disk, dirs, (depth - 1) as nat) =~= Seq::<
                            String,
                        >::empty());
                    }
                }
                assert(git_dirs_under(disk, dir, depth) == git_dirs_under_each(
                    disk,
                    dirs,
                    depth,
                ));
                assert(next.ahead() =~= dirs + rest);
                assert forall|i: int| 0 <= i < next.ahead().len() implies is_within(
                    disk,
                    #[trigger] next.ahead()[i],
                    depth,
                ) by {
                    if i < dirs.len() {
                        assert(next.ahead()[i] == dirs[i]);
                    } else {
                        assert(next.ahead()[i] == rest[i - dirs.len()]);
                    }
                }
            }
        },
    }
}

/// Whether the walk at `i` becomes the next one by reading its next directory.
pub open spec fn is_read_step(disk: Disk, run: Seq<Walk>, i: int) -> bool {
    &&& run[i].ahead().len() > 0
    &&& run[i].visited(disk(run[i].ahead()[0]@), run[i + 1])
}

/// A walk that has read everything has found exactly the repositories under the
/// directory it started from, each once, in the order they come.
pub proof fn law_a_walk_finds_every_repository(disk: Disk, run: Seq<Walk>, root: String, depth: nat)
    requires
        run.len() > 0,
        run[0].ahead() == seq![root],
        run[0].git_dirs@.len() == 0,
        forall|i: int| 0 <= i < run.len() - 1 ==> #[trigger] is_read_step(disk, run, i),
        run.last().ahead().len() == 0,
        is_within(disk, root, depth),
    ensures
        run.last().git_dirs@ == git_dirs_under(disk, root, depth),
{
    lemma_found_so_far(disk, run, root, depth, run.len() - 1);
    assert(run.last().git_dirs@ + git_dirs_under_each(disk, run.last().ahead(), depth)
        =~= run.last().git_dirs@);
}

proof fn lemma_found_so_far(disk: Disk, run: Seq<Walk>, root: String, depth: nat, n: int)
    requires
        0 <= n < run.len(),
        run[0].ahead() == seq![root],
        run[0].git_dirs@.len() == 0,
        forall|i: int| 0 <= i < run.len() - 1 ==> #[trigger] is_read_step(disk, run, i),
        is_within(disk, root, depth),
    ensures
        run[n].git_dirs@ + git_dirs_under_each(disk, run[n].ahead(), depth) == git_dirs_under(
            disk,
            root,
            depth,
        ),
        are_within(disk, run[n].ahead(), depth),
    decreases n,
{
    if n == 0 {
        assert(run[0].ahead().drop_first() =~= Seq::<String>::empty());
        let under = git_dirs_under(disk, root, depth);
        assert(git_dirs_under_each(disk, Seq::<String>::empty(), depth) =~= Seq::<
            String,
        >::empty());
        assert(git_dirs_under_each(disk, run[0].ahead(), depth) =~= under);
        assert(run[0].git_dirs@ + under =~= under);
    } else {
        lemma_found_so_far(disk, run, root, depth, n - 1);
        assert(is_read_step(disk, run, n - 1));
        law_a_visit_loses_nothing(disk, run[n - 1], run[n], depth);
    }
}

/// A directory is a repository exactly where it holds an entry named `.git`; a
/// repository is found itself, and not searched inside; a directory that cannot be
/// read has none.
pub proof fn law_a_repository_is_not_searched_inside(disk: Disk, dir: String, depth: nat)
    ensures
        disk(dir@) is None ==> git_dirs_under(disk, dir, depth).len() == 0,
        disk(dir@) matches Some(entries) ==> ((exists|i: int|
            0 <= i < entries.len() && #[trigger] entries[i].name@ == ".git"@) ==> git_dirs_under(
            disk,
            dir,
            depth,
        ) == seq![dir]),
{
}

/// A directory that is no repository has those of the directories in it, one after
/// the other, whatever they are called; what is no directory is not searched.
pub proof fn law_a_directory_has_what_its_directories_have(
    disk: Disk,
    dir: String,
    entries: Seq<Entry>,
    last: Entry,
    depth: nat,
)
    requires
        disk(dir@) == Some(entries),
        forall|i: int| 0 <= i < entries.len() ==> (#[trigger] entries[i]).name@ != ".git"@,
    ensures
        git_dirs_under(disk, dir, depth + 1) == git_dirs_under_each(
            disk,
            dirs_among(entries),
            depth,
        ),
        last.is_dir ==> dirs_among(entries.push(last)) == dirs_among(entries).push(last.path),
        !last.is_dir ==> dirs_among(entries.push(last)) == dirs_among(entries),
        dirs_among(Seq::<Entry>::empty()) == Seq::<String>::empty(),
{
    assert((depth + 1 - 1) as nat == depth);
    lemma_dirs_among_push(entries, last);
}

proof fn lemma_dirs_among_push(entries: Seq<Entry>, last: Entry)
    ensures
        dirs_among(entries.push(last)) == (if last.is_dir {
            dirs_among(entries).push(last.path)
        } else {
            dirs_among(entries)
        }),
    decreases entries.len(),
{
    let all = entries.push(last);
    if entries.len() == 0 {
        assert(all.drop_first() =~= Seq::<Entry>::empty());
        assert(dirs_among(all.drop_first()) =~= Seq::<String>::empty());
        assert(dirs_among(all) =~= (if last.is_dir {
            dirs_among(entries).push(last.path)
        } else {
            dirs_among(entries)
        }));
    } else {
        assert(all.drop_first() =~= entries.drop_first().push(last));
        lemma_dirs_among_push(entries.drop_first(), last);
        assert(dirs_among(all) =~= (if last.is_dir {
            dirs_among(entries).push(last.path)
        } else {
            dirs_among(entries)
        }));
    }
}

/// What several directories have is what each of them has, in their order.
pub proof fn law_directories_are_searched_in_order(
    disk: Disk,
    first: String,
    rest: Seq<String>,
    depth: nat,
)
    ensures
        git_dirs_under_each(disk, seq![first] + rest, depth) == git_dirs_under(disk, first, depth)
            + git_dirs_under_each(disk, rest, depth),
        git_dirs_under_each(disk, Seq::<String>::empty(), depth) == Seq::<String>::empty(),
{
    let all = seq![first] + rest;
    assert(all[0] == first);
    assert(all.drop_first() =~= rest);
}

} // verus!
