//! What is remembered about a space that no backend can tell.
//!
//! A cache, not a source of truth: whatever cannot be read is simply not
//! remembered. Spaces are filed under their path.

use vstd::prelude::*;

verus! {

/// File name used inside the data directory.
pub const FILE_NAME: &'static str = "spaces.toml";

/// What is remembered about one space.
#[derive(Debug, PartialEq, Eq)]
pub struct SpaceRecord {
    /// URL of the pull request the space was created for.
    pub pr: Option<String>,
}

impl Default for SpaceRecord {
    fn default() -> (record: Self)
        ensures
            record.pr is None,
    {
        SpaceRecord { pr: None }
    }
}

/// A space's path and what is remembered about it.
#[derive(Debug, PartialEq, Eq)]
pub struct Remembered {
    pub path: String,
    pub record: SpaceRecord,
}

/// Everything remembered, and the file it came from: no file if its name is
/// empty.
#[derive(Debug, PartialEq, Eq)]
pub struct SpaceMeta {
    pub path: String,
    pub entries: Vec<Remembered>,
}

/// The pull request filed under `path`.
pub open spec fn pr_at(entries: Seq<Remembered>, path: Seq<char>) -> Option<Seq<char>>
    decreases entries.len(),
{
    if entries.len() == 0 {
        None
    } else if entries.last().path@ == path {
        match entries.last().record.pr {
            Some(url) => Some(url@),
            None => None,
        }
    } else {
        pr_at(entries.drop_last(), path)
    }
}

/// Whether no path is filed twice.
pub open spec fn distinct(entries: Seq<Remembered>) -> bool {
    forall|i: int, j: int|
        0 <= i < j < entries.len() ==> (#[trigger] entries[i]).path@ != (#[trigger] entries[j]).path@
}

proof fn lemma_pr_at(entries: Seq<Remembered>, i: int)
    requires
        distinct(entries),
        0 <= i < entries.len(),
    ensures
        pr_at(entries, entries[i].path@) == (match entries[i].record.pr {
            Some(url) => Some(url@),
            None => None,
        }),
    decreases entries.len(),
{
    if i < entries.len() - 1 {
        let init = entries.drop_last();
        assert(distinct(init)) by {
            assert forall|a: int, b: int| 0 <= a < b < init.len() implies (#[trigger] init[a]).path@
                != (#[trigger] init[b]).path@ by {
                assert(init[a] == entries[a] && init[b] == entries[b]);
            }
        }
        assert(init[i] == entries[i]);
        assert(entries[i].path@ != entries[entries.len() - 1].path@);
        lemma_pr_at(init, i);
    }
}

proof fn lemma_pr_absent(entries: Seq<Remembered>, path: Seq<char>)
    requires
        forall|i: int| 0 <= i < entries.len() ==> (#[trigger] entries[i]).path@ != path,
    ensures
        pr_at(entries, path) is None,
    decreases entries.len(),
{
    if entries.len() > 0 {
        let init = entries.drop_last();
        assert forall|i: int| 0 <= i < init.len() implies (#[trigger] init[i]).path@ != path by {
            assert(init[i] == entries[i]);
        }
        lemma_pr_absent(init, path);
    }
}

/// Whether `entry` is one of `entries` from `from` on that is still alive.
pub open spec fn is_alive_from(
    entries: Seq<Remembered>,
    alive: Seq<bool>,
    from: int,
    entry: Remembered,
) -> bool {
    exists|j: int| from <= j < entries.len() && #[trigger] entries[j] == entry && alive[j]
}

impl Remembered {
    /// Whether this entry says that the space at `path` came from `url`.
    pub open spec fn says(self, path: Seq<char>, url: Seq<char>) -> bool {
        self.path@ == path && crate::github::opt_text(self.record.pr) == Some(url)
    }
}

impl SpaceMeta {
    pub open spec fn wf(self) -> bool {
        distinct(self.entries@)
    }

    /// Takes in what the file at `path` holds. A file that is missing, cannot be
    /// read or does not parse is `None`, and is an empty memory.
    pub fn load(path: String, read: Option<Vec<Remembered>>) -> (meta: SpaceMeta)
        requires
            read matches Some(entries) ==> distinct(entries@),
        ensures
            meta.wf(),
            meta.path == path,
            match read {
                Some(entries) => meta.entries == entries,
                None => meta.entries@.len() == 0,
            },
    {
        match read {
            Some(entries) => SpaceMeta { path, entries },
            None => SpaceMeta { path, entries: Vec::new() },
        }
    }

    /// A store that starts empty and writes nowhere.
    pub fn in_memory() -> (meta: SpaceMeta)
        ensures
            meta.wf(),
            meta.path@.len() == 0,
            meta.entries@.len() == 0,
    {
        SpaceMeta { path: String::new(), entries: Vec::new() }
    }

    /// Where `path` is filed, if it is.
    fn position(&self, path: &str) -> (at: Option<usize>)
        ensures
            match at {
                Some(i) => i < self.entries@.len() && self.entries@[i as int].path@ == path@,
                None => forall|i: int|
                    0 <= i < self.entries@.len() ==> (#[trigger] self.entries@[i]).path@ != path@,
            },
    {
        let mut i: usize = 0;
        while i < self.entries.len()
            invariant
                i <= self.entries@.len(),
                forall|k: int| 0 <= k < i ==> (#[trigger] self.entries@[k]).path@ != path@,
            decreases self.entries.len() - i,
        {
            if crate::text::same_text(self.entries[i].path.as_str(), path) {
                return Some(i);
            }
            i = i + 1;
        }
        None
    }

    /// The pull request the space at `path` was created for, if remembered.
    pub fn pr_of(&self, path: &str) -> (url: Option<String>)
        requires
            self.wf(),
        ensures
            crate::github::opt_text(url) == pr_at(self.entries@, path@),
    {
        match self.position(path) {
            Some(i) => {
                proof {
                    lemma_pr_at(self.entries@, i as int);
                }
                match &self.entries[i].record.pr {
                    Some(url) => Some(url.clone()),
                    None => None,
                }
            },
            None => {
                proof {
                    lemma_pr_absent(self.entries@, path@);
                }
                None
            },
        }
    }

    /// Whether `next` has the entries of this one, with the record of the space
    /// at `path` replaced.
    pub open spec fn refiled(self, path: Seq<char>, url: Seq<char>, next: SpaceMeta) -> bool {
        exists|i: int|
            0 <= i < self.entries@.len() && (#[trigger] self.entries@[i]).path@ == path
                && next.entries@ == self.entries@.update(i, next.entries@[i])
                && next.entries@[i].says(path, url)
    }

    /// Whether `next` has the entries of this one, and after them one for the
    /// space at `path`, which had none.
    pub open spec fn filed(self, path: Seq<char>, url: Seq<char>, next: SpaceMeta) -> bool {
        &&& forall|i: int| 0 <= i < self.entries@.len() ==> (#[trigger] self.entries@[i]).path@ != path
        &&& next.entries@.len() > 0
        &&& next.entries@ == self.entries@.push(next.entries@.last())
        &&& next.entries@.last().says(path, url)
    }

    /// Whether `next` is this record with the space at `path` come from `url`.
    pub open spec fn remembered(self, path: Seq<char>, url: Seq<char>, next: SpaceMeta) -> bool {
        &&& next.path == self.path
        &&& self.refiled(path, url, next) || self.filed(path, url, next)
        &&& pr_at(next.entries@, path) == Some(url)
        &&& forall|other: Seq<char>|
            other != path ==> #[trigger] pr_at(next.entries@, other) == pr_at(self.entries@, other)
    }

    /// Remembers that the space at `path` came from `url`. Nothing else changes.
    pub fn remember_pr(&mut self, path: &str, url: String)
        requires
            old(self).wf(),
        ensures
            final(self).wf(),
            old(self).remembered(path@, url@, *final(self)),
    {
        let ghost before = self.entries@;
        let ghost url_text = url@;
        match self.position(path) {
            Some(i) => {
                let filed = self.entries[i].path.clone();
                let entry = Remembered { path: filed, record: SpaceRecord { pr: Some(url) } };
                self.entries.set(i, entry);
                proof {
                    let after = self.entries@;
                    assert(after =~= before.update(i as int, entry));
                    assert(distinct(after)) by {
                        assert forall|a: int, b: int| 0 <= a < b < after.len() implies (
                        #[trigger] after[a]).path@ != (#[trigger] after[b]).path@ by {
                            assert(before[a].path@ != before[b].path@);
                        }
                    }
                    assert(before[i as int].path@ == path@);
                    assert(old(self).refiled(path@, url_text, *self)) by {
                        assert(old(self).entries@[i as int].path@ == path@);
                    }
                    lemma_pr_at(after, i as int);
                    assert forall|other: Seq<char>| other != path@ implies #[trigger] pr_at(
                        after,
                        other,
                    ) == pr_at(before, other) by {
                        lemma_pr_same_elsewhere(before, after, i as int, other);
                    }
                }
            },
            None => {
                let entry = Remembered {
                    path: path.to_owned(),
                    record: SpaceRecord { pr: Some(url) },
                };
                self.entries.push(entry);
                proof {
                    let after = self.entries@;
                    assert(after.drop_last() =~= before);
                    assert(old(self).filed(path@, url_text, *self));
                    assert(distinct(after)) by {
                        assert forall|a: int, b: int| 0 <= a < b < after.len() implies (
                        #[trigger] after[a]).path@ != (#[trigger] after[b]).path@ by {
                            assert(after[a] == before[a]);
                            if b < before.len() {
                                assert(after[b] == before[b]);
                            }
                        }
                    }
                }
            },
        }
    }

    /// Drops the entries whose space is gone; `alive` says of each, in order,
    /// whether it is still there.
    pub fn forget_missing(&mut self, alive: &Vec<bool>)
        requires
            old(self).wf(),
            alive@.len() == old(self).entries@.len(),
        ensures
            final(self).wf(),
            final(self).path == old(self).path,
            forall|k: int|
                0 <= k < final(self).entries@.len() ==> is_alive_from(
                    old(self).entries@,
                    alive@,
                    0,
                    #[trigger] final(self).entries@[k],
                ),
            forall|j: int|
                0 <= j < alive@.len() && alive@[j] ==> final(self).entries@.contains(
                    #[trigger] old(self).entries@[j],
                ),
            forall|i: int|
                0 <= i < alive@.len() ==> pr_at(
                    final(self).entries@,
                    (#[trigger] old(self).entries@[i]).path@,
                ) == (if alive@[i] {
                    pr_at(old(self).entries@, old(self).entries@[i].path@)
                } else {
                    None
                }),
    {
        let ghost before = self.entries@;
        let ghost n = before.len() as int;
        let mut kept: Vec<Remembered> = Vec::new();
        let mut i: usize = self.entries.len();
        assert(before.take(n) =~= before);
        while i > 0
            invariant
                n == before.len() == alive@.len(),
                i <= n,
                distinct(before),
                self.path == old(self).path,
                self.entries@ == before.take(i as int),
                distinct(kept@),
                forall|k: int|
                    0 <= k < kept@.len() ==> is_alive_from(
                        before,
                        alive@,
                        i as int,
                        #[trigger] kept@[k],
                    ),
                forall|j: int| i <= j < n && alive@[j] ==> kept@.contains(#[trigger] before[j]),
            decreases i,
        {
            let ghost was = kept@;
            let ghost above = i as int;
            i = i - 1;
            let entry = self.entries.pop();
            assert(before.take(above).drop_last() =~= before.take(i as int));
            assert(entry == Some(before[i as int]));
            proof {
                assert forall|k: int| 0 <= k < was.len() implies is_alive_from(
                    before,
                    alive@,
                    i as int,
                    #[trigger] was[k],
                ) by {
                    assert(is_alive_from(before, alive@, above, was[k]));
                }
            }
            if let Some(entry) = entry {
                if alive[i] {
                    kept.push(entry);
                    proof {
                        assert(is_alive_from(before, alive@, i as int, entry));
                        assert forall|a: int, b: int| 0 <= a < b < kept@.len() implies (
                        #[trigger] kept@[a]).path@ != (#[trigger] kept@[b]).path@ by {
                            assert(kept@[a] == was[a]);
                            if b == was.len() {
                                assert(is_alive_from(before, alive@, above, was[a]));
                                let j = choose|j: int|
                                    above <= j < n && #[trigger] before[j] == was[a] && alive@[j];
                                assert(before[i as int].path@ != before[j].path@);
                            } else {
                                assert(kept@[b] == was[b]);
                            }
                        }
                        assert forall|j: int| i <= j < n && alive@[j] implies kept@.contains(
                            #[trigger] before[j],
                        ) by {
                            if j == i {
                                assert(kept@[was.len() as int] == before[j]);
                            } else {
                                let k = choose|k: int| 0 <= k < was.len() && was[k] == before[j];
                                assert(kept@[k] == before[j]);
                            }
                        }
                        assert forall|k: int| 0 <= k < kept@.len() implies is_alive_from(
                            before,
                            alive@,
                            i as int,
                            #[trigger] kept@[k],
                        ) by {
                            if k < was.len() {
                                assert(kept@[k] == was[k]);
                            }
                        }
                    }
                }
            }
        }
        self.entries = kept;
        proof {
            let after = self.entries@;
            assert forall|i: int| 0 <= i < alive@.len() implies pr_at(
                after,
                (#[trigger] before[i]).path@,
            ) == (if alive@[i] {
                pr_at(before, before[i].path@)
            } else {
                None
            }) by {
                lemma_pr_at(before, i);
                if alive@[i] {
                    assert(after.contains(before[i]));
                    let k = choose|k: int| 0 <= k < after.len() && after[k] == before[i];
                    lemma_pr_at(after, k);
                } else {
                    assert forall|k: int| 0 <= k < after.len() implies (#[trigger] after[k]).path@
                        != before[i].path@ by {
                        assert(is_alive_from(before, alive@, 0, after[k]));
                        let j = choose|j: int|
                            0 <= j < n && #[trigger] before[j] == after[k] && alive@[j];
                        assert(j != i);
                        if j < i {
                            assert(before[j].path@ != before[i].path@);
                        } else {
                            assert(before[i].path@ != before[j].path@);
                        }
                    }
                    lemma_pr_absent(after, before[i].path@);
                }
            }
        }
    }

    /// The file to rewrite, or `None` for a store that writes nowhere.
    pub fn file(&self) -> (file: Option<String>)
        ensures
            file == (if self.path@.len() == 0 {
                None
            } else {
                Some(self.path)
            }),
    {
        if self.path.as_str().is_empty() {
            None
        } else {
            Some(self.path.clone())
        }
    }
}

proof fn lemma_pr_same_elsewhere(
    before: Seq<Remembered>,
    after: Seq<Remembered>,
    i: int,
    other: Seq<char>,
)
    requires
        0 <= i < before.len() == after.len(),
        after[i].path@ == before[i].path@,
        before[i].path@ != other,
        forall|k: int| 0 <= k < before.len() && k != i ==> #[trigger] after[k] == before[k],
    ensures
        pr_at(after, other) == pr_at(before, other),
    decreases before.len(),
{
    let n = before.len() - 1;
    if i < n {
        assert(after[n] == before[n]);
        let a = after.drop_last();
        let b = before.drop_last();
        assert forall|k: int| 0 <= k < b.len() && k != i implies #[trigger] a[k] == b[k] by {
            assert(after[k] == before[k]);
        }
        lemma_pr_same_elsewhere(b, a, i, other);
    } else {
        assert(after.drop_last() =~= before.drop_last());
    }
}

/// What is filed is found: the pull request of a space is the one in the entry
/// under its path.
pub proof fn law_what_is_filed_is_found(entries: Seq<Remembered>, i: int)
    requires
        distinct(entries),
        0 <= i < entries.len(),
    ensures
        entries[i].record.pr matches Some(url) ==> pr_at(entries, entries[i].path@) == Some(url@),
        entries[i].record.pr is None ==> pr_at(entries, entries[i].path@) is None,
{
    lemma_pr_at(entries, i);
}

/// Nothing is known of a space that is not filed.
pub proof fn law_what_is_not_filed_is_unknown(entries: Seq<Remembered>, path: Seq<char>)
    requires
        forall|i: int| 0 <= i < entries.len() ==> (#[trigger] entries[i]).path@ != path,
    ensures
        pr_at(entries, path) is None,
{
    lemma_pr_absent(entries, path);
}

/// Remembering a pull request files exactly it, under exactly that path: every
/// other entry stays, and none is added but this one.
pub proof fn law_remembering_files_one_entry(
    meta: SpaceMeta,
    path: Seq<char>,
    url: Seq<char>,
    next: SpaceMeta,
)
    requires
        meta.remembered(path, url, next),
    ensures
        next.path == meta.path,
        exists|i: int|
            0 <= i < next.entries@.len() && (#[trigger] next.entries@[i]).path@ == path && (
            next.entries@[i].record.pr matches Some(held) && held@ == url),
        forall|i: int|
            0 <= i < meta.entries@.len() && (#[trigger] meta.entries@[i]).path@ != path
                ==> next.entries@[i] == meta.entries@[i],
        next.entries@.len() == meta.entries@.len() <==> exists|i: int|
            0 <= i < meta.entries@.len() && (#[trigger] meta.entries@[i]).path@ == path,
        next.entries@.len() == meta.entries@.len() || next.entries@.len() == meta.entries@.len()
            + 1,
{
    if meta.refiled(path, url, next) {
        let i = choose|i: int|
            0 <= i < meta.entries@.len() && (#[trigger] meta.entries@[i]).path@ == path
                && next.entries@ == meta.entries@.update(i, next.entries@[i])
                && next.entries@[i].says(path, url);
        assert(next.entries@[i].path@ == path);
    } else {
        let last = next.entries@.len() - 1;
        assert(next.entries@[last].path@ == path);
    }
}

} // verus!
