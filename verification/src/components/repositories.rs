//! The repositories, each once for every backend that drives it.

use vstd::prelude::*;

use crate::components::filter::{
    draw_filter, erased, is_filter_view, typed, FilterComponent, FilterView,
};
use crate::components::help::{
    footer_entries, footer_of, HelpEntry, FILTER_SECTION, KEYS_SECTION,
};
use crate::components::list::{
    first_where, lemma_first_where, lemma_is_first, lemma_masked_filter, moved, retain, step,
    Focus, ItemOrder,
};
use crate::components::modal::{is_countable, popup_area, popup_in, Extent};
use crate::components::prompt::{footer, footer_line};
use crate::components::worktrees::row::SpaceEntry;
use crate::components::{Action, EventState};
use crate::fuzzy::{label_view, label_views, score_keys, search};
use crate::keymap::InputMode;
use crate::order::{arrange, arranged, ints, law_arranged, TextRank};
use crate::screen::{lines_of, push_line, Line, Rect};
use crate::text::{concat, decimal, decimal_of, pad_end, padded, same_text};
use crate::theme::{self, Style, Theme};
use crate::vcs::{Backend, Repo, RepoId, Space};

verus! {

/// A repository as one backend opened it, and the spaces that backend lists, or
/// why it could not.
#[derive(Debug, PartialEq, Eq)]
pub struct Listing {
    pub repo: Repo,
    pub spaces: Result<Vec<Space>, String>,
}

/// The rows one repository contributes.
pub open spec fn entries_of(repo: Repo, spaces: Seq<Space>) -> Seq<SpaceEntry> {
    spaces.map_values(
        |space: Space| SpaceEntry { repo_name: repo.name, repo_path: repo.path, space },
    )
}

/// Every space of every repository that could be listed, in order.
pub open spec fn listed_spaces(listings: Seq<Listing>) -> Seq<SpaceEntry>
    decreases listings.len(),
{
    if listings.len() == 0 {
        Seq::empty()
    } else {
        match listings.last().spaces {
            Ok(spaces) => listed_spaces(listings.drop_last()) + entries_of(
                listings.last().repo,
                spaces@,
            ),
            Err(_) => listed_spaces(listings.drop_last()),
        }
    }
}

/// The names of the repositories that could not be listed, in order.
pub open spec fn unlisted(listings: Seq<Listing>) -> Seq<String>
    decreases listings.len(),
{
    if listings.len() == 0 {
        Seq::empty()
    } else {
        match listings.last().spaces {
            Ok(_) => unlisted(listings.drop_last()),
            Err(_) => unlisted(listings.drop_last()).push(listings.last().repo.name),
        }
    }
}

/// Every space of every repository, and the names of the repositories that
/// could not be asked: one that fails costs the others nothing.
pub fn spaces_of(listings: &Vec<Listing>) -> (out: (Vec<SpaceEntry>, Vec<String>))
    ensures
        out.0@ == listed_spaces(listings@),
        out.1@ == unlisted(listings@),
{
    let mut entries: Vec<SpaceEntry> = Vec::new();
    let mut failed: Vec<String> = Vec::new();
    let mut i: usize = 0;
    assert(listings@.take(0) =~= Seq::<Listing>::empty());
    while i < listings.len()
        invariant
            i <= listings@.len(),
            entries@ == listed_spaces(listings@.take(i as int)),
            failed@ == unlisted(listings@.take(i as int)),
        decreases listings.len() - i,
    {
        let listing = &listings[i];
        let ghost now = listings@.take(i + 1);
        assert(now.drop_last() =~= listings@.take(i as int));
        assert(now.last() == *listing);
        match &listing.spaces {
            Ok(spaces) => {
                let ghost before = entries@;
                let ghost wanted = entries_of(listing.repo, spaces@);
                let mut j: usize = 0;
                assert(entries@ =~= before + wanted.take(0));
                while j < spaces.len()
                    invariant
                        j <= spaces@.len(),
                        wanted == entries_of(listing.repo, spaces@),
                        entries@ == before + wanted.take(j as int),
                    decreases spaces.len() - j,
                {
                    entries.push(
                        SpaceEntry {
                            repo_name: listing.repo.name.clone(),
                            repo_path: listing.repo.path.clone(),
                            space: spaces[j].clone(),
                        },
                    );
                    assert(entries@ =~= before + wanted.take(j + 1));
                    j = j + 1;
                }
                assert(wanted.take(j as int) =~= wanted);
            },
            Err(_) => {
                failed.push(listing.repo.name.clone());
            },
        }
        i = i + 1;
    }
    assert(listings@.take(listings@.len() as int) =~= listings@);
    (entries, failed)
}

// ---------------------------------------------------------------------------
// The rows on show
// ---------------------------------------------------------------------------

/// The test for one repository, among entries of a list of choices.
pub open spec fn is_choice_of(repos: Seq<Repo>, choices: Seq<int>, id: Seq<char>) -> spec_fn(
    int,
) -> bool {
    |k: int| repos[choices[k]].id@ == id
}

/// One entry for each repository, in the order they came: of a repository that
/// two backends drive, the one jj drives.
pub open spec fn choices(repos: Seq<Repo>) -> Seq<int>
    decreases repos.len(),
{
    if repos.len() == 0 {
        Seq::empty()
    } else {
        let before = choices(repos.drop_last());
        let x = repos.len() - 1;
        match first_where(before.len(), is_choice_of(repos, before, repos[x].id@)) {
            Some(k) => if repos[x].backend is Jj {
                before.update(k, x)
            } else {
                before
            },
            None => before.push(x),
        }
    }
}

/// The names rows are listed by.
pub open spec fn repo_keys(repos: Seq<Repo>, offered: Seq<int>) -> Seq<Option<TextRank>> {
    offered.map_values(|x: int| Some(TextRank { text: repos[x].name }))
}

/// The names rows are searched by.
pub open spec fn repo_labels(repos: Seq<Repo>, offered: Seq<int>) -> Seq<Option<Seq<char>>> {
    offered.map_values(|x: int| Some(repos[x].name@))
}

/// The repositories on show, in order: by name, or by how well they match.
pub open spec fn repo_rows(repos: Seq<Repo>, query: Seq<char>) -> Seq<int> {
    let offered = choices(repos);
    let order = if query.len() == 0 {
        arranged(repo_keys(repos, offered))
    } else {
        arranged(score_keys(query, repo_labels(repos, offered)))
    };
    order.map_values(|i: int| offered[i])
}

/// The test for one repository, among rows.
pub open spec fn is_row_of(repos: Seq<Repo>, rows: Seq<int>, id: Seq<char>) -> spec_fn(int) -> bool {
    |i: int| repos[rows[i]].id@ == id
}

/// The test for a repository of a name, among rows.
pub open spec fn is_named(repos: Seq<Repo>, rows: Seq<int>, name: Seq<char>) -> spec_fn(int) -> bool {
    |i: int| repos[rows[i]].name@ == name
}

/// Where the selection goes after the repositories changed.
pub open spec fn restored_row(
    repos: Seq<Repo>,
    query: Seq<char>,
    was: Option<usize>,
    anchor: Option<Seq<char>>,
) -> Option<usize> {
    let rows = repo_rows(repos, query);
    if rows.len() == 0 {
        None
    } else {
        let found = match anchor {
            Some(id) => first_where(rows.len(), is_row_of(repos, rows, id)),
            None => None,
        };
        match found {
            Some(i) => Some(i as usize),
            None => {
                let stood = match was {
                    Some(i) => i as int,
                    None => 0,
                };
                Some(
                    if stood < rows.len() {
                        stood as usize
                    } else {
                        (rows.len() - 1) as usize
                    },
                )
            },
        }
    }
}

/// The id of the repository at a row.
pub open spec fn id_at(repos: Seq<Repo>, query: Seq<char>, row: Option<usize>) -> Option<Seq<char>> {
    match row {
        Some(i) => if i < repo_rows(repos, query).len() {
            Some(repos[repo_rows(repos, query)[i as int]].id@)
        } else {
            None
        },
        None => None,
    }
}

/// The test for every repository but one.
pub open spec fn other_than(id: Seq<char>) -> spec_fn(Repo) -> bool {
    |repo: Repo| repo.id@ != id
}

/// The repositories without one of them, and where the selection is then.
pub open spec fn without(state: (Seq<Repo>, Option<usize>), query: Seq<char>, id: Seq<char>) -> (
    Seq<Repo>,
    Option<usize>,
) {
    let left = state.0.filter(other_than(id));
    (left, restored_row(left, query, state.1, id_at(state.0, query, state.1)))
}

/// The repositories without any that `batch` holds, taken out one by one.
pub open spec fn without_all(
    state: (Seq<Repo>, Option<usize>),
    query: Seq<char>,
    batch: Seq<Repo>,
) -> (Seq<Repo>, Option<usize>)
    decreases batch.len(),
{
    if batch.len() == 0 {
        state
    } else {
        without(without_all(state, query, batch.drop_last()), query, batch.last().id@)
    }
}

/// The first repositories of a list, each id once.
pub open spec fn first_paths(repos: Seq<Repo>) -> Seq<String>
    decreases repos.len(),
{
    if repos.len() == 0 {
        Seq::empty()
    } else {
        let before = first_paths(repos.drop_last());
        if is_open(repos.drop_last(), repos.last().id@) {
            before
        } else {
            before.push(repos.last().path)
        }
    }
}

/// Whether a repository of this id is among `repos`.
pub open spec fn is_open(repos: Seq<Repo>, id: Seq<char>) -> bool {
    exists|k: int| 0 <= k < repos.len() && #[trigger] repos[k].id@ == id
}

/// The backends open on a repository, in the order they were opened.
pub open spec fn backends_on(repos: Seq<Repo>, id: Seq<char>) -> Seq<Backend>
    decreases repos.len(),
{
    if repos.len() == 0 {
        Seq::empty()
    } else if repos.last().id@ == id {
        backends_on(repos.drop_last(), id).push(repos.last().backend)
    } else {
        backends_on(repos.drop_last(), id)
    }
}

/// The test for what one backend opened of one repository.
pub open spec fn is_opened(repos: Seq<Repo>, id: Seq<char>, backend: Backend) -> spec_fn(
    int,
) -> bool {
    |k: int| repos[k].id@ == id && repos[k].backend == backend
}

/// The test for a repository, whatever backend opened it.
pub open spec fn has_id(repos: Seq<Repo>, id: Seq<char>) -> spec_fn(int) -> bool {
    |k: int| repos[k].id@ == id
}

/// The repository at an index that may be missing.
pub open spec fn at(repos: Seq<Repo>, index: Option<int>) -> Option<Repo> {
    match index {
        Some(k) => Some(repos[k]),
        None => None,
    }
}

/// A repository behind a reference that may be missing.
pub open spec fn found(repo: Option<&Repo>) -> Option<Repo> {
    match repo {
        Some(repo) => Some(*repo),
        None => None,
    }
}

/// The list of repositories.
#[derive(Debug, PartialEq, Eq)]
pub struct RepositoriesComponent {
    pub repositories: Vec<Repo>,
    pub filter: FilterComponent,
    /// The row the user is on, counted among the rows on show.
    pub selected_index: Option<usize>,
    pub focus: Focus,
}

impl RepositoriesComponent {
    pub open spec fn wf(self) -> bool {
        self.filter.wf()
    }

    /// The repositories on show, in order.
    pub open spec fn rows(self) -> Seq<int> {
        repo_rows(self.repositories@, self.filter.value@)
    }

    /// The repository the user is on.
    pub open spec fn selected(self) -> Option<Repo> {
        match self.selected_index {
            Some(i) => if i < self.rows().len() {
                Some(self.repositories@[self.rows()[i as int]])
            } else {
                None
            },
            None => None,
        }
    }

    /// The repository the user is on, as `backend` opened it.
    pub open spec fn selected_through(self, backend: Backend) -> Option<Repo> {
        match self.selected() {
            Some(repo) => at(
                self.repositories@,
                first_where(
                    self.repositories@.len(),
                    is_opened(self.repositories@, repo.id@, backend),
                ),
            ),
            None => None,
        }
    }

    /// The repository that owns a space, as the backend that owns it opened it.
    pub open spec fn owner_of(self, space: Space) -> Option<Repo> {
        at(
            self.repositories@,
            first_where(
                self.repositories@.len(),
                is_opened(self.repositories@, space.repo@, space.backend),
            ),
        )
    }

    /// The repository of an id, as the first backend to open it describes it.
    pub open spec fn repository_of(self, id: Seq<char>) -> Option<Repo> {
        at(
            self.repositories@,
            first_where(self.repositories@.len(), has_id(self.repositories@, id)),
        )
    }

    /// The id of the repository the user is on.
    pub open spec fn anchor(self) -> Option<Seq<char>> {
        id_at(self.repositories@, self.filter.value@, self.selected_index)
    }

    pub fn new(repositories: Vec<Repo>) -> (list: RepositoriesComponent)
        ensures
            list.wf(),
            list.repositories == repositories,
            list.filter.value@ == Seq::<char>::empty(),
            list.selected_index == Some(0usize),
            list.focus == Focus::Filter,
    {
        RepositoriesComponent {
            repositories,
            filter: FilterComponent::new(),
            selected_index: Some(0),
            focus: Focus::Filter,
        }
    }

    /// One entry for each repository.
    fn repository_choices(&self) -> (offered: Vec<usize>)
        ensures
            ints(offered@) == choices(self.repositories@),
            forall|k: int|
                0 <= k < offered@.len() ==> #[trigger] offered@[k] < self.repositories@.len(),
    {
        let ghost repos = self.repositories@;
        let mut offered: Vec<usize> = Vec::new();
        let mut i: usize = 0;
        assert(repos.take(0) =~= Seq::<Repo>::empty());
        assert(ints(offered@) =~= choices(repos.take(0)));
        while i < self.repositories.len()
            invariant
                repos == self.repositories@,
                i <= repos.len(),
                ints(offered@) == choices(repos.take(i as int)),
                forall|k: int| 0 <= k < offered@.len() ==> #[trigger] offered@[k] < i,
            decreases self.repositories.len() - i,
        {
            let candidate = &self.repositories[i];
            let ghost now = repos.take(i + 1);
            let ghost before = ints(offered@);
            let ghost test = is_choice_of(now, before, candidate.id@);
            assert(now.drop_last() =~= repos.take(i as int));
            assert(now.last() == *candidate);
            let mut kept: Option<usize> = None;
            let mut k: usize = 0;
            while k < offered.len() && kept.is_none()
                invariant
                    repos == self.repositories@,
                    i < repos.len(),
                    now == repos.take(i + 1),
                    *candidate == repos[i as int],
                    before == ints(offered@),
                    before.len() == offered@.len(),
                    test == is_choice_of(now, before, candidate.id@),
                    forall|k: int| 0 <= k < offered@.len() ==> #[trigger] offered@[k] < i,
                    k <= offered@.len(),
                    match kept {
                        Some(at) => at < offered@.len() && first_where(before.len(), test) == Some(
                            at as int,
                        ),
                        None => forall|j: int| 0 <= j < k ==> !#[trigger] test(j),
                    },
                decreases offered.len() - k,
            {
                assert(before[k as int] == offered@[k as int]);
                assert(now[offered@[k as int] as int] == repos[offered@[k as int] as int]);
                if self.repositories[offered[k]].id.same(&candidate.id) {
                    proof {
                        assert(test(k as int));
                        lemma_is_first(before.len(), test, k as int);
                    }
                    kept = Some(k);
                } else {
                    assert(!test(k as int));
                }
                k = k + 1;
            }
            proof {
                lemma_first_where(before.len(), test);
            }
            match kept {
                Some(at) => {
                    if matches!(candidate.backend, Backend::Jj) {
                        offered.set(at, i);
                        assert(ints(offered@) =~= before.update(at as int, i as int));
                    }
                },
                None => {
                    offered.push(i);
                    assert(ints(offered@) =~= before.push(i as int));
                },
            }
            i = i + 1;
        }
        assert(repos.take(repos.len() as int) =~= repos);
        offered
    }

    /// The repositories on show, in order.
    pub fn filtered_items(&self) -> (rows: Vec<usize>)
        ensures
            ints(rows@) == self.rows(),
            forall|i: int|
                0 <= i < rows@.len() ==> #[trigger] rows@[i] < self.repositories@.len(),
    {
        let offered = self.repository_choices();
        let ghost repos = self.repositories@;
        let ghost all = choices(repos);
        assert(all.len() == offered@.len());
        let order = if self.filter.value.as_str().is_empty() {
            let mut keys: Vec<Option<TextRank>> = Vec::new();
            let ghost wanted = repo_keys(repos, all);
            let mut i: usize = 0;
            while i < offered.len()
                invariant
                    repos == self.repositories@,
                    all == ints(offered@),
                    wanted == repo_keys(repos, all),
                    all.len() == offered@.len(),
                    i <= offered@.len(),
                    forall|k: int| 0 <= k < offered@.len() ==> #[trigger] offered@[k] < repos.len(),
                    keys@ == wanted.take(i as int),
                decreases offered.len() - i,
            {
                assert(all[i as int] == offered@[i as int]);
                keys.push(Some(TextRank { text: self.repositories[offered[i]].name.clone() }));
                assert(keys@ =~= wanted.take(i + 1));
                i = i + 1;
            }
            assert(keys@ =~= wanted);
            arrange(&keys)
        } else {
            let mut labels: Vec<Option<String>> = Vec::new();
            let ghost wanted = repo_labels(repos, all);
            let mut i: usize = 0;
            assert(label_views(labels@) =~= wanted.take(0));
            while i < offered.len()
                invariant
                    repos == self.repositories@,
                    all == ints(offered@),
                    wanted == repo_labels(repos, all),
                    all.len() == offered@.len(),
                    i <= offered@.len(),
                    labels@.len() == i,
                    forall|k: int| 0 <= k < offered@.len() ==> #[trigger] offered@[k] < repos.len(),
                    label_views(labels@) == wanted.take(i as int),
                decreases offered.len() - i,
            {
                assert(all[i as int] == offered@[i as int]);
                let ghost before = label_views(labels@);
                let label = Some(self.repositories[offered[i]].name.clone());
                labels.push(label);
                assert(label_views(labels@) =~= before.push(label_view(label)));
                assert(label_views(labels@) =~= wanted.take(i + 1));
                i = i + 1;
            }
            assert(wanted.take(i as int) =~= wanted);
            search(self.filter.value.as_str(), &labels)
        };
        let mut rows: Vec<usize> = Vec::new();
        let ghost wanted = self.rows();
        let mut i: usize = 0;
        assert(ints(order@).len() == order@.len());
        assert(ints(rows@) =~= wanted.take(0));
        while i < order.len()
            invariant
                repos == self.repositories@,
                all == ints(offered@),
                all.len() == offered@.len(),
                wanted == ints(order@).map_values(|i: int| all[i]),
                i <= order@.len(),
                rows@.len() == i,
                forall|k: int| 0 <= k < order@.len() ==> #[trigger] order@[k] < offered@.len(),
                forall|k: int| 0 <= k < offered@.len() ==> #[trigger] offered@[k] < repos.len(),
                forall|k: int| 0 <= k < rows@.len() ==> #[trigger] rows@[k] < repos.len(),
                ints(rows@) == wanted.take(i as int),
            decreases order.len() - i,
        {
            let ghost before = ints(rows@);
            let x: usize = offered[order[i]];
            assert(ints(order@)[i as int] == order@[i as int]);
            assert(all[order@[i as int] as int] == x);
            rows.push(x);
            assert(ints(rows@) =~= before.push(x as int));
            assert(ints(rows@) =~= wanted.take(i + 1));
            i = i + 1;
        }
        assert(wanted.take(i as int) =~= wanted);
        rows
    }

    fn selected_at(&self) -> (at: Option<usize>)
        ensures
            match at {
                Some(k) => k < self.repositories@.len() && self.selected() == Some(
                    self.repositories@[k as int],
                ),
                None => self.selected() is None,
            },
    {
        match self.selected_index {
            Some(index) => {
                let rows = self.filtered_items();
                assert(ints(rows@).len() == rows@.len());
                if index < rows.len() {
                    assert(ints(rows@)[index as int] == rows@[index as int]);
                    Some(rows[index])
                } else {
                    None
                }
            },
            None => None,
        }
    }

    /// The highlighted repository's id.
    pub fn selected_repo_id(&self) -> (id: Option<RepoId>)
        ensures
            match (id, self.anchor()) {
                (Some(id), Some(anchor)) => id@ == anchor,
                (None, None) => true,
                _ => false,
            },
            match (id, self.selected()) {
                (Some(id), Some(repo)) => id == repo.id,
                (None, None) => true,
                _ => false,
            },
    {
        match self.selected_at() {
            Some(k) => Some(self.repositories[k].id.clone()),
            None => None,
        }
    }

    /// The highlighted repository.
    pub fn selected_repository(&self) -> (repo: Option<&Repo>)
        ensures
            found(repo) == self.selected(),
    {
        match self.selected_at() {
            Some(k) => Some(&self.repositories[k]),
            None => None,
        }
    }

    /// The highlighted repository as `backend` opened it.
    pub fn selected_backend(&self, backend: Backend) -> (repo: Option<&Repo>)
        ensures
            found(repo) == self.selected_through(backend),
    {
        match self.selected_at() {
            Some(k) => self.opened(&self.repositories[k].id, backend),
            None => None,
        }
    }

    /// The repository `id` as `backend` opened it.
    fn opened(&self, id: &RepoId, backend: Backend) -> (repo: Option<&Repo>)
        ensures
            found(repo) == at(
                self.repositories@,
                first_where(self.repositories@.len(), is_opened(self.repositories@, id@, backend)),
            ),
    {
        let ghost test = is_opened(self.repositories@, id@, backend);
        let mut k: usize = 0;
        while k < self.repositories.len()
            invariant
                k <= self.repositories@.len(),
                test == is_opened(self.repositories@, id@, backend),
                forall|j: int| 0 <= j < k ==> !#[trigger] test(j),
            decreases self.repositories.len() - k,
        {
            if self.repositories[k].id.same(id) && self.repositories[k].backend == backend {
                proof {
                    assert(test(k as int));
                    lemma_is_first(self.repositories@.len(), test, k as int);
                }
                return Some(&self.repositories[k]);
            }
            assert(!test(k as int));
            k = k + 1;
        }
        proof {
            lemma_first_where(self.repositories@.len(), test);
        }
        None
    }

    /// The repository that owns `space`, as the backend that owns it opened it:
    /// the id alone would not do, since two backends can drive one repository.
    pub fn backend_for(&self, space: &Space) -> (repo: Option<&Repo>)
        ensures
            found(repo) == self.owner_of(*space),
    {
        self.opened(&space.repo, space.backend)
    }

    /// The repository `id`, as the first backend to open it describes it.
    pub fn repository(&self, id: &RepoId) -> (repo: Option<&Repo>)
        ensures
            found(repo) == self.repository_of(id@),
    {
        let ghost test = has_id(self.repositories@, id@);
        let mut k: usize = 0;
        while k < self.repositories.len()
            invariant
                k <= self.repositories@.len(),
                test == has_id(self.repositories@, id@),
                forall|j: int| 0 <= j < k ==> !#[trigger] test(j),
            decreases self.repositories.len() - k,
        {
            if self.repositories[k].id.same(id) {
                proof {
                    assert(test(k as int));
                    lemma_is_first(self.repositories@.len(), test, k as int);
                }
                return Some(&self.repositories[k]);
            }
            assert(!test(k as int));
            k = k + 1;
        }
        proof {
            lemma_first_where(self.repositories@.len(), test);
        }
        None
    }

    /// The path of every repository, once each.
    pub fn repository_paths(&self) -> (paths: Vec<String>)
        ensures
            paths@ == first_paths(self.repositories@),
    {
        let ghost repos = self.repositories@;
        let mut paths: Vec<String> = Vec::new();
        let mut i: usize = 0;
        assert(repos.take(0) =~= Seq::<Repo>::empty());
        while i < self.repositories.len()
            invariant
                repos == self.repositories@,
                i <= repos.len(),
                paths@ == first_paths(repos.take(i as int)),
            decreases self.repositories.len() - i,
        {
            let ghost now = repos.take(i + 1);
            assert(now.drop_last() =~= repos.take(i as int));
            assert(now.last() == repos[i as int]);
            let mut seen = false;
            let mut k: usize = 0;
            while k < i
                invariant
                    repos == self.repositories@,
                    i < repos.len(),
                    k <= i,
                    seen == (exists|j: int|
                        0 <= j < k && #[trigger] repos.take(i as int)[j].id@ == repos[i as int].id@),
                decreases i - k,
            {
                assert(repos.take(i as int)[k as int] == repos[k as int]);
                if self.repositories[k].id.same(&self.repositories[i].id) {
                    seen = true;
                }
                k = k + 1;
            }
            if !seen {
                paths.push(self.repositories[i].path.clone());
            }
            i = i + 1;
        }
        assert(repos.take(repos.len() as int) =~= repos);
        paths
    }

    /// Every backend open on the repository `id`, in the order they were opened.
    pub fn backends_of(&self, id: &RepoId) -> (backends: Vec<Backend>)
        ensures
            backends@ == backends_on(self.repositories@, id@),
    {
        let ghost repos = self.repositories@;
        let mut backends: Vec<Backend> = Vec::new();
        let mut i: usize = 0;
        assert(repos.take(0) =~= Seq::<Repo>::empty());
        while i < self.repositories.len()
            invariant
                repos == self.repositories@,
                i <= repos.len(),
                backends@ == backends_on(repos.take(i as int), id@),
            decreases self.repositories.len() - i,
        {
            let ghost now = repos.take(i + 1);
            assert(now.drop_last() =~= repos.take(i as int));
            assert(now.last() == repos[i as int]);
            if self.repositories[i].id.same(id) {
                backends.push(self.repositories[i].backend);
            }
            i = i + 1;
        }
        assert(repos.take(repos.len() as int) =~= repos);
        backends
    }

    /// Puts the selection back on `anchor`, or where it stood.
    fn restore_selection(&mut self, anchor: Option<RepoId>)
        ensures
            *final(self) == (RepositoriesComponent {
                selected_index: restored_row(
                    old(self).repositories@,
                    old(self).filter.value@,
                    old(self).selected_index,
                    match anchor {
                        Some(id) => Some(id@),
                        None => None,
                    },
                ),
                ..*old(self)
            }),
    {
        let rows = self.filtered_items();
        let ghost order = self.rows();
        assert(order.len() == rows@.len());
        if rows.len() == 0 {
            self.selected_index = None;
            return;
        }
        if let Some(id) = &anchor {
            let ghost test = is_row_of(self.repositories@, order, id@);
            let mut i: usize = 0;
            while i < rows.len()
                invariant
                    i <= rows@.len(),
                    order == self.rows(),
                    order == ints(rows@),
                    order.len() == rows@.len(),
                    forall|k: int|
                        0 <= k < rows@.len() ==> #[trigger] rows@[k] < self.repositories@.len(),
                    test == is_row_of(self.repositories@, order, id@),
                    forall|k: int| 0 <= k < i ==> !#[trigger] test(k),
                    *self == *old(self),
                    anchor == Some(*id),
                decreases rows.len() - i,
            {
                assert(order[i as int] == rows@[i as int]);
                if self.repositories[rows[i]].id.same(id) {
                    proof {
                        assert(test(i as int));
                        lemma_is_first(order.len(), test, i as int);
                    }
                    self.selected_index = Some(i);
                    return;
                }
                assert(!test(i as int));
                i = i + 1;
            }
            proof {
                lemma_first_where(order.len(), test);
            }
        }
        let stood: usize = match self.selected_index {
            Some(i) => i,
            None => 0,
        };
        self.selected_index = Some(
            if stood < rows.len() {
                stood
            } else {
                rows.len() - 1
            },
        );
    }

    /// Adds one repository at the end.
    pub fn add_repository(&mut self, repo: Repo)
        ensures
            final(self).repositories@ == old(self).repositories@.push(repo),
            *final(self) == (RepositoriesComponent {
                repositories: final(self).repositories,
                ..*old(self)
            }),
    {
        self.repositories.push(repo);
    }

    /// Whether `next` is this list with other repositories, and the user where
    /// they were.
    pub open spec fn replaced(self, repositories: Seq<Repo>, next: RepositoriesComponent) -> bool {
        &&& next.repositories@ == repositories
        &&& next == (RepositoriesComponent {
            repositories: next.repositories,
            selected_index: restored_row(
                repositories,
                self.filter.value@,
                self.selected_index,
                self.anchor(),
            ),
            ..self
        })
    }

    /// Swaps the whole set, keeping the user on the repository they were on if
    /// it is still there.
    pub fn replace_backends(&mut self, repositories: Vec<Repo>)
        ensures
            old(self).replaced(repositories@, *final(self)),
    {
        let anchor = self.selected_repo_id();
        self.repositories = repositories;
        self.restore_selection(anchor);
    }

    /// The list and its selection, as the rules above speak of them.
    pub open spec fn state(self) -> (Seq<Repo>, Option<usize>) {
        (self.repositories@, self.selected_index)
    }

    /// Drops every backend open on `id`, and says how many that was.
    pub fn remove(&mut self, id: &RepoId) -> (dropped: usize)
        ensures
            final(self).state() == without(old(self).state(), old(self).filter.value@, id@),
            final(self).filter == old(self).filter,
            final(self).focus == old(self).focus,
            dropped == old(self).repositories@.len() - final(self).repositories@.len(),
    {
        let anchor = self.selected_repo_id();
        let before: usize = self.repositories.len();
        let ghost all = self.repositories@;
        let mut keep: Vec<bool> = Vec::new();
        let mut i: usize = 0;
        while i < self.repositories.len()
            invariant
                *self == *old(self),
                i <= self.repositories@.len(),
                keep@.len() == i,
                forall|k: int|
                    0 <= k < i ==> keep@[k] == ((#[trigger] self.repositories@[k]).id@ != id@),
            decreases self.repositories.len() - i,
        {
            keep.push(!self.repositories[i].id.same(id));
            i = i + 1;
        }
        retain(&mut self.repositories, &keep);
        proof {
            lemma_masked_filter(all, keep@, other_than(id@));
            lemma_filter_len(all, other_than(id@));
        }
        self.restore_selection(anchor);
        before - self.repositories.len()
    }

    /// Whether `next` is this list with a batch in place of what it held of
    /// those repositories.
    pub open spec fn joined(self, batch: Seq<Repo>, next: RepositoriesComponent) -> bool {
        let query = self.filter.value@;
        let left = without_all(self.state(), query, batch);
        &&& next.repositories@ == left.0 + batch
        &&& next == (RepositoriesComponent {
            repositories: next.repositories,
            selected_index: restored_row(
                left.0 + batch,
                query,
                left.1,
                id_at(left.0, query, left.1),
            ),
            ..self
        })
    }

    /// Takes in a batch of freshly opened repositories in place of what is
    /// already there of them.
    pub fn add_repositories(&mut self, repositories: Vec<Repo>)
        ensures
            old(self).joined(repositories@, *final(self)),
    {
        let mut i: usize = 0;
        assert(repositories@.take(0) =~= Seq::<Repo>::empty());
        while i < repositories.len()
            invariant
                i <= repositories@.len(),
                self.state() == without_all(
                    old(self).state(),
                    old(self).filter.value@,
                    repositories@.take(i as int),
                ),
                self.filter == old(self).filter,
                self.focus == old(self).focus,
            decreases repositories.len() - i,
        {
            let ghost now = repositories@.take(i + 1);
            assert(now.drop_last() =~= repositories@.take(i as int));
            assert(now.last() == repositories@[i as int]);
            self.remove(&repositories[i].id);
            i = i + 1;
        }
        assert(repositories@.take(repositories@.len() as int) =~= repositories@);
        let anchor = self.selected_repo_id();
        let mut repositories = repositories;
        self.repositories.append(&mut repositories);
        self.restore_selection(anchor);
    }

    fn select(&mut self, order: ItemOrder)
        ensures
            *final(self) == (RepositoriesComponent {
                selected_index: moved(order, old(self).selected_index, old(self).rows().len()),
                ..*old(self)
            }),
    {
        let rows = self.filtered_items();
        assert(ints(rows@).len() == rows@.len());
        self.selected_index = step(order, self.selected_index, rows.len());
    }

    /// What a key does to the list.
    pub open spec fn after(self, action: Action, next: RepositoriesComponent) -> bool {
        match action {
            Action::MoveDown => next == (RepositoriesComponent {
                selected_index: moved(ItemOrder::Next, self.selected_index, self.rows().len()),
                ..self
            }),
            Action::MoveUp => next == (RepositoriesComponent {
                selected_index: moved(ItemOrder::Previous, self.selected_index, self.rows().len()),
                ..self
            }),
            Action::GoFirst => next == (RepositoriesComponent {
                selected_index: moved(ItemOrder::First, self.selected_index, self.rows().len()),
                ..self
            }),
            Action::GoLast => next == (RepositoriesComponent {
                selected_index: moved(ItemOrder::Last, self.selected_index, self.rows().len()),
                ..self
            }),
            Action::InsertChar(c) => {
                &&& next.filter.line() == typed(self.filter.value@, self.filter.cursor as nat, c)
                &&& next == (RepositoriesComponent {
                    filter: next.filter,
                    selected_index: moved(
                        ItemOrder::First,
                        self.selected_index,
                        repo_rows(self.repositories@, next.filter.value@).len(),
                    ),
                    ..self
                })
            },
            Action::DeleteChar => {
                &&& next.filter.line() == erased(self.filter.value@, self.filter.cursor as nat)
                &&& next == (RepositoriesComponent {
                    filter: next.filter,
                    selected_index: moved(
                        ItemOrder::First,
                        self.selected_index,
                        repo_rows(self.repositories@, next.filter.value@).len(),
                    ),
                    ..self
                })
            },
            _ => next == self,
        }
    }

    /// What a key means to the list.
    pub open spec fn state_after(self, action: Action) -> EventState {
        match action {
            Action::MoveDown | Action::MoveUp | Action::GoFirst | Action::GoLast
            | Action::InsertChar(_) | Action::DeleteChar => EventState::Consumed,
            _ => EventState::NotConsumed,
        }
    }

    /// Acts on a key of the list.
    pub fn handle_action(&mut self, action: Action) -> (state: EventState)
        requires
            old(self).wf(),
        ensures
            final(self).wf(),
            old(self).after(action, *final(self)),
            state == old(self).state_after(action),
    {
        match action {
            Action::MoveDown => {
                self.select(ItemOrder::Next);
                EventState::Consumed
            },
            Action::MoveUp => {
                self.select(ItemOrder::Previous);
                EventState::Consumed
            },
            Action::GoFirst => {
                self.select(ItemOrder::First);
                EventState::Consumed
            },
            Action::GoLast => {
                self.select(ItemOrder::Last);
                EventState::Consumed
            },
            Action::InsertChar(c) => {
                self.filter.enter_char(c);
                self.select(ItemOrder::First);
                EventState::Consumed
            },
            Action::DeleteChar => {
                self.filter.delete_char();
                self.select(ItemOrder::First);
                EventState::Consumed
            },
            _ => EventState::NotConsumed,
        }
    }

    pub fn focus_filter(&mut self)
        ensures
            *final(self) == (RepositoriesComponent { focus: Focus::Filter, ..*old(self) }),
    {
        self.focus = Focus::Filter;
    }

    pub fn focus_list(&mut self)
        ensures
            *final(self) == (RepositoriesComponent { focus: Focus::List, ..*old(self) }),
    {
        self.focus = Focus::List;
    }

    pub fn toggle_focus(&mut self)
        ensures
            *final(self) == (RepositoriesComponent {
                focus: match old(self).focus {
                    Focus::Filter => Focus::List,
                    Focus::List => Focus::Filter,
                },
                ..*old(self)
            }),
    {
        self.focus = match self.focus {
            Focus::Filter => Focus::List,
            Focus::List => Focus::Filter,
        };
    }

    #[verifier::allow_in_spec]
    pub fn is_filter_focused(&self) -> bool
        returns
            self.focus is Filter,
    {
        matches!(self.focus, Focus::Filter)
    }

    /// The first row of an unfiltered list that has this name.
    pub open spec fn row_named(self, name: Seq<char>) -> Option<int> {
        let rows = repo_rows(self.repositories@, Seq::empty());
        first_where(rows.len(), is_named(self.repositories@, rows, name))
    }

    /// Whether `next` is this list with the filter cleared and the repository of
    /// this name selected, if there is one.
    pub open spec fn named(self, name: Seq<char>, next: RepositoriesComponent) -> bool {
        &&& next.filter.value@ == Seq::<char>::empty()
        &&& next == (RepositoriesComponent {
            filter: next.filter,
            selected_index: match self.row_named(name) {
                Some(i) => Some(i as usize),
                None => self.selected_index,
            },
            ..self
        })
    }

    /// Clears the filter and selects the repository of this name, if there is
    /// one.
    pub fn select_repository_by_name(&mut self, name: &str) -> (found: bool)
        ensures
            final(self).wf(),
            found == (old(self).row_named(name@) is Some),
            old(self).named(name@, *final(self)),
    {
        self.filter.clear();
        let rows = self.filtered_items();
        let ghost order = self.rows();
        let ghost test = is_named(self.repositories@, order, name@);
        assert(order.len() == rows@.len());
        let mut i: usize = 0;
        while i < rows.len()
            invariant
                i <= rows@.len(),
                order == ints(rows@),
                order.len() == rows@.len(),
                order == repo_rows(self.repositories@, Seq::empty()),
                forall|k: int|
                    0 <= k < rows@.len() ==> #[trigger] rows@[k] < self.repositories@.len(),
                test == is_named(self.repositories@, order, name@),
                forall|k: int| 0 <= k < i ==> !#[trigger] test(k),
                *self == (RepositoriesComponent { filter: self.filter, ..*old(self) }),
                self.filter.wf(),
                self.filter.value@ == Seq::<char>::empty(),
            decreases rows.len() - i,
        {
            assert(order[i as int] == rows@[i as int]);
            if same_text(self.repositories[rows[i]].name.as_str(), name) {
                proof {
                    assert(test(i as int));
                    lemma_is_first(order.len(), test, i as int);
                    assert(old(self).row_named(name@) == first_where(order.len(), test));
                }
                self.selected_index = Some(i);
                return true;
            }
            assert(!test(i as int));
            i = i + 1;
        }
        proof {
            lemma_first_where(order.len(), test);
            assert(old(self).row_named(name@) == first_where(order.len(), test));
        }
        false
    }
}

proof fn lemma_filter_len(items: Seq<Repo>, test: spec_fn(Repo) -> bool)
    ensures
        items.filter(test).len() <= items.len(),
    decreases items.len(),
{
    reveal(Seq::filter);
    if items.len() > 0 {
        lemma_filter_len(items.drop_last(), test);
    }
}

// ---------------------------------------------------------------------------
// Laws
// ---------------------------------------------------------------------------

/// Whether `offered` offers every repository once, by jj where jj drives it.
pub open spec fn is_offer(repos: Seq<Repo>, offered: Seq<int>) -> bool {
    &&& forall|k: int| 0 <= k < offered.len() ==> 0 <= #[trigger] offered[k] < repos.len()
    &&& forall|j: int, k: int|
        0 <= j < k < offered.len() ==> repos[#[trigger] offered[j]].id@ != repos[
            #[trigger] offered[k]
        ].id@
    &&& forall|x: int| 0 <= x < repos.len() ==> #[trigger] offers(repos, offered, x)
}

/// Whether a repository is offered, by jj where jj drives it.
pub open spec fn offers(repos: Seq<Repo>, offered: Seq<int>, x: int) -> bool {
    exists|k: int| 0 <= k < offered.len() && #[trigger] stands_for(repos, offered[k], x)
}

/// Whether one entry stands for the repository of another, by jj where that one
/// is jj's.
pub open spec fn stands_for(repos: Seq<Repo>, y: int, x: int) -> bool {
    repos[y].id@ == repos[x].id@ && (repos[x].backend is Jj ==> repos[y].backend is Jj)
}

/// The picker offers every repository exactly once, and one that jj drives is
/// offered as jj's.
pub proof fn law_a_repository_is_offered_once(repos: Seq<Repo>)
    ensures
        is_offer(repos, choices(repos)),
    decreases repos.len(),
{
    if repos.len() > 0 {
        let rest = repos.drop_last();
        law_a_repository_is_offered_once(rest);
        let before = choices(rest);
        let offered = choices(repos);
        let x = repos.len() - 1;
        let test = is_choice_of(repos, before, repos[x].id@);
        lemma_first_where(before.len(), test);
        let at = first_where(before.len(), test);
        // What is offered at a place is a repository of the id that was there.
        assert forall|k: int| 0 <= k < before.len() implies 0 <= #[trigger] offered[k] < repos.len()
            && repos[offered[k]].id@ == rest[before[k]].id@ && (rest[before[k]].backend is Jj
            ==> repos[offered[k]].backend is Jj) by {
            assert(0 <= before[k] < rest.len());
            assert(repos[before[k]] == rest[before[k]]);
            if at == Some(k) {
                assert(test(k));
            }
        }
        assert forall|j: int, k: int| 0 <= j < k < offered.len() implies repos[
            #[trigger] offered[j]
        ].id@ != repos[#[trigger] offered[k]].id@ by {
            if k < before.len() {
                assert(rest[before[j]].id@ != rest[before[k]].id@);
            } else {
                assert(!test(j));
                assert(repos[before[j]] == rest[before[j]]);
            }
        }
        assert forall|y: int| 0 <= y < repos.len() implies #[trigger] offers(repos, offered, y) by {
            if y < x {
                assert(offers(rest, before, y));
                let k = choose|k: int|
                    0 <= k < before.len() && #[trigger] stands_for(rest, before[k], y);
                assert(rest[y] == repos[y]);
                assert(stands_for(repos, offered[k], y));
            } else {
                match at {
                    Some(k) => {
                        assert(test(k));
                        assert(stands_for(repos, offered[k], y));
                    },
                    None => {
                        assert(offered[before.len() as int] == y);
                        assert(stands_for(repos, offered[before.len() as int], y));
                    },
                }
            }
        }
    }
}

/// The test for the repositories a batch does not hold.
pub open spec fn not_in(batch: Seq<Repo>) -> spec_fn(Repo) -> bool {
    |repo: Repo| !is_open(batch, repo.id@)
}

/// A batch takes the place of exactly the repositories it holds, whatever
/// backends they were open as; every other one stays, in its order.
pub proof fn law_a_batch_replaces_its_own(
    state: (Seq<Repo>, Option<usize>),
    query: Seq<char>,
    batch: Seq<Repo>,
)
    ensures
        without_all(state, query, batch).0 == state.0.filter(not_in(batch)),
    decreases batch.len(),
{
    if batch.len() == 0 {
        lemma_filter_whole(state.0, not_in(batch));
    } else {
        let rest = batch.drop_last();
        law_a_batch_replaces_its_own(state, query, rest);
        lemma_filter_twice(state.0, not_in(rest), other_than(batch.last().id@), not_in(batch));
    }
}

proof fn lemma_filter_whole(repos: Seq<Repo>, test: spec_fn(Repo) -> bool)
    requires
        forall|repo: Repo| #[trigger] test(repo),
    ensures
        repos.filter(test) == repos,
    decreases repos.len(),
{
    reveal(Seq::filter);
    if repos.len() > 0 {
        lemma_filter_whole(repos.drop_last(), test);
        assert(test(repos.last()));
        assert(repos.drop_last().push(repos.last()) =~= repos);
    } else {
        assert(repos.filter(test) =~= repos);
    }
}

proof fn lemma_filter_twice(
    repos: Seq<Repo>,
    first: spec_fn(Repo) -> bool,
    second: spec_fn(Repo) -> bool,
    both: spec_fn(Repo) -> bool,
)
    requires
        exists|batch: Seq<Repo>|
            batch.len() > 0 && #[trigger] not_in(batch) == both && not_in(batch.drop_last()) == first
                && other_than(batch.last().id@) == second,
    ensures
        repos.filter(first).filter(second) == repos.filter(both),
    decreases repos.len(),
{
    reveal(Seq::filter);
    let batch = choose|batch: Seq<Repo>|
        batch.len() > 0 && #[trigger] not_in(batch) == both && not_in(batch.drop_last()) == first
            && other_than(batch.last().id@) == second;
    if repos.len() > 0 {
        let repo = repos.last();
        lemma_filter_twice(repos.drop_last(), first, second, both);
        assert(is_open(batch, repo.id@) == (is_open(batch.drop_last(), repo.id@)
            || batch.last().id@ == repo.id@)) by {
            if is_open(batch, repo.id@) {
                let k = choose|k: int| 0 <= k < batch.len() && #[trigger] batch[k].id@ == repo.id@;
                if k < batch.len() - 1 {
                    assert(batch.drop_last()[k].id@ == repo.id@);
                }
            }
            if is_open(batch.drop_last(), repo.id@) {
                let k = choose|k: int|
                    0 <= k < batch.drop_last().len() && #[trigger] batch.drop_last()[k].id@
                        == repo.id@;
                assert(batch[k].id@ == repo.id@);
            }
            if batch.last().id@ == repo.id@ {
                assert(batch[batch.len() - 1].id@ == repo.id@);
            }
        }
        assert(both(repo) == (first(repo) && second(repo)));
        let kept = repos.drop_last().filter(first);
        if first(repo) {
            assert(kept.push(repo).drop_last() =~= kept);
        }
    } else {
        assert(repos.filter(first) =~= Seq::<Repo>::empty());
        assert(repos.filter(first).filter(second) =~= Seq::<Repo>::empty());
        assert(repos.filter(both) =~= Seq::<Repo>::empty());
    }
}

/// The rows on show are repositories of the list; without a filter every
/// repository is on show, once.
pub proof fn law_rows_are_repositories(repos: Seq<Repo>, query: Seq<char>)
    ensures
        ({
            let rows = repo_rows(repos, query);
            &&& rows.len() <= choices(repos).len()
            &&& forall|i: int| 0 <= i < rows.len() ==> 0 <= #[trigger] rows[i] < repos.len()
            &&& forall|i: int, j: int|
                0 <= i < j < rows.len() ==> repos[#[trigger] rows[i]].id@ != repos[
                    #[trigger] rows[j]
                ].id@
            &&& query.len() == 0 ==> forall|k: int|
                0 <= k < choices(repos).len() ==> rows.contains(#[trigger] choices(repos)[k])
        }),
{
    let offered = choices(repos);
    let rows = repo_rows(repos, query);
    law_a_repository_is_offered_once(repos);
    let order = if query.len() == 0 {
        law_arranged(repo_keys(repos, offered));
        arranged(repo_keys(repos, offered))
    } else {
        law_arranged(score_keys(query, repo_labels(repos, offered)));
        arranged(score_keys(query, repo_labels(repos, offered)))
    };
    lemma_arranged_len(order, offered.len());
    assert forall|i: int| 0 <= i < rows.len() implies 0 <= #[trigger] rows[i] < repos.len() by {
        assert(0 <= order[i] < offered.len());
        assert(0 <= offered[order[i]] < repos.len());
    }
    assert forall|i: int, j: int| 0 <= i < j < rows.len() implies repos[#[trigger] rows[i]].id@
        != repos[#[trigger] rows[j]].id@ by {
        assert(order[i] != order[j]);
        if order[i] < order[j] {
            assert(repos[offered[order[i]]].id@ != repos[offered[order[j]]].id@);
        } else {
            assert(repos[offered[order[j]]].id@ != repos[offered[order[i]]].id@);
        }
    }
    if query.len() == 0 {
        let keys = repo_keys(repos, offered);
        assert forall|k: int| 0 <= k < offered.len() implies rows.contains(
            #[trigger] offered[k],
        ) by {
            assert(keys[k] is Some);
            assert(order.contains(k));
            let i = choose|i: int| 0 <= i < order.len() && order[i] == k;
            assert(rows[i] == offered[k]);
        }
    }
}

proof fn lemma_arranged_len(order: Seq<int>, n: nat)
    requires
        order.no_duplicates(),
        forall|i: int| 0 <= i < order.len() ==> 0 <= #[trigger] order[i] < n,
    ensures
        order.len() <= n,
{
    order.unique_seq_to_set();
    vstd::set_lib::lemma_int_range(0, n as int);
    let range = vstd::set_lib::set_int_range(0, n as int);
    assert forall|x: int| #[trigger] order.to_set().contains(x) implies range.contains(x) by {
        let i = choose|i: int| 0 <= i < order.len() && order[i] == x;
        assert(0 <= order[i] < n);
    }
    vstd::set_lib::lemma_len_subset(order.to_set(), range);
}

// ---------------------------------------------------------------------------
// Drawing
// ---------------------------------------------------------------------------

/// The list of repositories as it is drawn.
#[derive(Debug, PartialEq, Eq)]
pub struct RepositoriesView {
    pub area: Rect,
    pub border: Style,
    pub surface: Style,
    /// In the middle of the top border.
    pub title: Line,
    pub footer: Line,
    pub filter: Option<FilterView>,
    pub list_area: Rect,
    pub rows: Vec<Line>,
    pub row_style: Style,
    pub highlight: Style,
    /// Stands before the selected row, for terminals without backgrounds.
    pub marker: &'static str,
    pub selected: Option<usize>,
    /// Whether there are rows off screen, and so a scrollbar.
    pub scrolls: bool,
    pub bar: Style,
}

/// One row: the backend's tag, then the name.
pub open spec fn repo_line(repo: Repo, theme: Theme) -> Seq<(Seq<char>, Style)> {
    seq![
        (padded(repo.backend.label()@, 4), theme::muted(&theme)),
        (repo.name@, theme::text(&theme)),
    ]
}

fn repo_row(repo: &Repo, theme: &Theme) -> (line: Line)
    ensures
        line@ == repo_line(*repo, *theme),
{
    let mut line = Line::empty();
    line.push(pad_end(repo.backend.label(), 4).as_str(), theme::muted(theme));
    line.push(repo.name.as_str(), theme::text(theme));
    assert(line@ =~= repo_line(*repo, *theme));
    line
}

impl RepositoriesComponent {
    /// The title: how many are on show, and what they are filtered by.
    pub open spec fn title_runs(self, mode: InputMode, theme: Theme) -> Seq<(Seq<char>, Style)> {
        seq![
            (" "@, Style::plain()),
            ("Repositories"@, theme::title(&theme)),
            (" ("@ + decimal_of(self.rows().len()) + ") "@, theme::secondary(&theme)),
        ] + (if self.filter.value@.len() > 0 && mode is Normal {
            seq![("/"@ + self.filter.value@ + " "@, theme::muted(&theme))]
        } else {
            Seq::empty()
        })
    }

    /// The rows as they are drawn.
    pub open spec fn row_lines(self, theme: Theme) -> Seq<Seq<(Seq<char>, Style)>> {
        self.rows().map_values(|x: int| repo_line(self.repositories@[x], theme))
    }

    /// What is drawn of the list. Where the filter is open, its areas are stated
    /// exactly if the rows fit.
    pub open spec fn is_view(
        self,
        view: RepositoriesView,
        rect: Rect,
        mode: InputMode,
        border: Style,
        surface: Style,
        bindings: Seq<HelpEntry>,
        theme: Theme,
    ) -> bool {
        let inner = rect.spec_within_border();
        let filtering = mode is Insert && self.focus is Filter;
        &&& view.area == rect
        &&& view.border == border
        &&& view.surface == surface
        &&& view.title@ == self.title_runs(mode, theme)
        &&& view.footer@ == footer_line(
            footer_of(
                bindings,
                match mode {
                    InputMode::Normal => KEYS_SECTION@,
                    InputMode::Insert => FILTER_SECTION@,
                },
                theme,
            ),
            rect.width,
            theme,
        )
        &&& match view.filter {
            Some(drawn) => {
                &&& filtering
                &&& is_filter_view(drawn, self.filter, theme)
                &&& inner.holds(drawn.line_area) && inner.holds(drawn.rule_area) && inner.holds(
                    view.list_area,
                )
                &&& inner.height >= 3 ==> {
                    &&& drawn.line_area == (Rect { height: 1, ..inner })
                    &&& drawn.rule_area == (Rect { y: (inner.y + 1) as u16, height: 1, ..inner })
                    &&& view.list_area == (Rect {
                        y: (inner.y + 2) as u16,
                        height: (inner.height - 2) as u16,
                        ..inner
                    })
                }
            },
            None => !filtering && view.list_area == inner,
        }
        &&& lines_of(view.rows@) == self.row_lines(theme)
        &&& view.row_style == theme::text(&theme)
        &&& view.highlight == theme::selected_row(&theme)
        &&& view.marker == "\u{25b8} "
        &&& view.selected == self.selected_index
        &&& view.scrolls == (self.rows().len() > view.list_area.height)
        &&& view.bar == theme::rule(&theme)
    }

    /// The picker: a popup whose border always says it has the keyboard.
    pub fn draw(&self, rect: Rect, mode: InputMode, theme: &Theme) -> (view: Option<
        RepositoriesView,
    >)
        requires
            is_countable(rect),
        ensures
            match view {
                Some(v) => !rect.is_empty() && self.is_view(
                    v,
                    rect,
                    mode,
                    theme::border_focused(theme),
                    theme::popup_surface(theme),
                    repositories_table(),
                    *theme,
                ),
                None => rect.is_empty(),
            },
    {
        let bindings = repositories_bindings();
        self.render(
            rect,
            mode,
            theme::border_focused(theme),
            theme::popup_surface(theme),
            &bindings,
            theme,
        )
    }

    /// The left pane of the two-pane layout, which shows through its border
    /// whether it has the keyboard.
    pub fn draw_pane(&self, rect: Rect, mode: InputMode, focused: bool, theme: &Theme) -> (view:
        Option<RepositoriesView>)
        requires
            is_countable(rect),
        ensures
            match view {
                Some(v) => !rect.is_empty() && self.is_view(
                    v,
                    rect,
                    mode,
                    if focused {
                        theme::border_focused(theme)
                    } else {
                        theme::border(theme)
                    },
                    theme::canvas(theme),
                    repositories_pane_table(),
                    *theme,
                ),
                None => rect.is_empty(),
            },
    {
        let border = if focused {
            theme::border_focused(theme)
        } else {
            theme::border(theme)
        };
        let bindings = repositories_pane_bindings();
        self.render(rect, mode, border, theme::canvas(theme), &bindings, theme)
    }

    fn title(&self, total: usize, mode: InputMode, theme: &Theme) -> (line: Line)
        requires
            total == self.rows().len(),
        ensures
            line@ == self.title_runs(mode, *theme),
    {
        let mut line = Line::empty();
        line.push(" ", Style::plain());
        line.push("Repositories", theme::title(theme));
        let mut count = concat(" (", decimal(total as u64).as_str());
        count.append(") ");
        line.push(count.as_str(), theme::secondary(theme));
        if !self.filter.value.as_str().is_empty() && matches!(mode, InputMode::Normal) {
            let mut text = concat("/", self.filter.value.as_str());
            text.append(" ");
            line.push(text.as_str(), theme::muted(theme));
        }
        assert(line@ =~= self.title_runs(mode, *theme));
        line
    }

    fn render(
        &self,
        rect: Rect,
        mode: InputMode,
        border: Style,
        surface: Style,
        bindings: &Vec<HelpEntry>,
        theme: &Theme,
    ) -> (view: Option<RepositoriesView>)
        requires
            is_countable(rect),
        ensures
            match view {
                Some(v) => !rect.is_empty() && self.is_view(
                    v,
                    rect,
                    mode,
                    border,
                    surface,
                    bindings@,
                    *theme,
                ),
                None => rect.is_empty(),
            },
    {
        if rect.is_empty() {
            return None;
        }
        let shown = self.filtered_items();
        let total: usize = shown.len();
        assert(ints(shown@).len() == shown@.len());
        let title = self.title(total, mode, theme);
        let section = match mode {
            InputMode::Normal => KEYS_SECTION,
            InputMode::Insert => FILTER_SECTION,
        };
        let entries = footer_entries(bindings, section, theme);
        let footer = footer(&entries, rect.width, theme);
        let inner = rect.within_border();
        let in_filter = matches!(mode, InputMode::Insert) && matches!(self.focus, Focus::Filter);
        let (filter, list_area) = if in_filter {
            let (drawn, list_area) = draw_filter(&self.filter, inner, theme);
            (Some(drawn), list_area)
        } else {
            (None, inner)
        };

        let ghost wanted = self.row_lines(*theme);
        let mut rows: Vec<Line> = Vec::new();
        let mut i: usize = 0;
        assert(lines_of(rows@) =~= wanted.take(0));
        while i < shown.len()
            invariant
                i <= shown@.len(),
                self.rows() == ints(shown@),
                wanted == self.row_lines(*theme),
                wanted.len() == shown@.len(),
                forall|k: int|
                    0 <= k < shown@.len() ==> #[trigger] shown@[k] < self.repositories@.len(),
                lines_of(rows@) == wanted.take(i as int),
            decreases shown.len() - i,
        {
            assert(ints(shown@)[i as int] == shown@[i as int]);
            let line = repo_row(&self.repositories[shown[i]], theme);
            push_line(&mut rows, line);
            assert(wanted[i as int] == line@);
            assert(lines_of(rows@) =~= wanted.take(i + 1));
            i = i + 1;
        }
        assert(lines_of(rows@) =~= wanted);
        Some(
            RepositoriesView {
                area: rect,
                border,
                surface,
                title,
                footer,
                filter,
                list_area,
                rows,
                row_style: theme::text(theme),
                highlight: theme::selected_row(theme),
                marker: "\u{25b8} ",
                selected: self.selected_index,
                scrolls: total > list_area.height as usize,
                bar: theme::rule(theme),
            },
        )
    }
}

/// The keys of the left pane.
pub open spec fn repositories_pane_table() -> Seq<HelpEntry> {
    seq![
        HelpEntry::Section(KEYS_SECTION),
        HelpEntry::bind("j / \u{2193}", "Move down").hint("j/k", "move"),
        HelpEntry::bind("k / \u{2191}", "Move up"),
        HelpEntry::bind("n", "New space here").hint("n", "new"),
        HelpEntry::bind("i", "Enter filter mode").hint("i", "filter"),
        HelpEntry::bind("Tab", "Focus spaces").hint("Tab", "spaces"),
        HelpEntry::bind("? / F1", "Show this help").hint("?", "help").aside(),
        HelpEntry::bind("q / Ctrl+C", "Quit"),
        HelpEntry::Blank,
        HelpEntry::Section(FILTER_SECTION),
        HelpEntry::bind("Esc", "Leave filter mode").hint("Esc", "list").safe().essential(),
        HelpEntry::bind("\u{2191} / \u{2193} / Ctrl+K / Ctrl+J", "Move in list").hint("\u{2191}/\u{2193}", "move"),
    ]
}

/// The keys of the left pane.
pub fn repositories_pane_bindings() -> (entries: Vec<HelpEntry>)
    ensures
        entries@ == repositories_pane_table(),
{
    let mut entries: Vec<HelpEntry> = Vec::new();
    entries.push(HelpEntry::Section(KEYS_SECTION));
    entries.push(HelpEntry::bind("j / \u{2193}", "Move down").hint("j/k", "move"));
    entries.push(HelpEntry::bind("k / \u{2191}", "Move up"));
    entries.push(HelpEntry::bind("n", "New space here").hint("n", "new"));
    entries.push(HelpEntry::bind("i", "Enter filter mode").hint("i", "filter"));
    entries.push(HelpEntry::bind("Tab", "Focus spaces").hint("Tab", "spaces"));
    entries.push(HelpEntry::bind("? / F1", "Show this help").hint("?", "help").aside());
    entries.push(HelpEntry::bind("q / Ctrl+C", "Quit"));
    entries.push(HelpEntry::Blank);
    entries.push(HelpEntry::Section(FILTER_SECTION));
    entries.push(HelpEntry::bind("Esc", "Leave filter mode").hint("Esc", "list").safe().essential());
    entries.push(HelpEntry::bind("\u{2191} / \u{2193} / Ctrl+K / Ctrl+J", "Move in list").hint("\u{2191}/\u{2193}", "move"));
    assert(entries@ =~= repositories_pane_table());
    entries
}

/// The keys of the picker, in its two modes.
pub open spec fn repositories_table() -> Seq<HelpEntry> {
    seq![
        HelpEntry::Section(KEYS_SECTION),
        HelpEntry::bind("j / \u{2193}", "Move down").hint("j/k", "move"),
        HelpEntry::bind("k / \u{2191}", "Move up"),
        HelpEntry::bind("g / Home", "Go to first"),
        HelpEntry::bind("G / End", "Go to last"),
        HelpEntry::bind("i", "Enter filter mode").hint("i", "filter"),
        HelpEntry::bind("Tab", "Toggle filter / list"),
        HelpEntry::bind("Enter", "Select repository").hint("Enter", "select"),
        HelpEntry::bind("? / F1", "Show this help").hint("?", "help").aside(),
        HelpEntry::bind("Esc", "Close popup").hint("Esc", "close").safe().essential(),
        HelpEntry::bind("q / Ctrl+C", "Quit"),
        HelpEntry::Blank,
        HelpEntry::Section(FILTER_SECTION),
        HelpEntry::bind("Esc", "Leave filter mode").hint("Esc", "list").safe().essential(),
        HelpEntry::bind("\u{2191} / \u{2193} / Ctrl+K / Ctrl+J", "Move in list").hint("\u{2191}/\u{2193}", "move"),
        HelpEntry::bind("Enter", "Select repository").hint("Enter", "select"),
        HelpEntry::bind("F1", "Show this help").hint("F1", "help").aside(),
    ]
}

/// The keys of the picker, in its two modes.
pub fn repositories_bindings() -> (entries: Vec<HelpEntry>)
    ensures
        entries@ == repositories_table(),
{
    let mut entries: Vec<HelpEntry> = Vec::new();
    entries.push(HelpEntry::Section(KEYS_SECTION));
    entries.push(HelpEntry::bind("j / \u{2193}", "Move down").hint("j/k", "move"));
    entries.push(HelpEntry::bind("k / \u{2191}", "Move up"));
    entries.push(HelpEntry::bind("g / Home", "Go to first"));
    entries.push(HelpEntry::bind("G / End", "Go to last"));
    entries.push(HelpEntry::bind("i", "Enter filter mode").hint("i", "filter"));
    entries.push(HelpEntry::bind("Tab", "Toggle filter / list"));
    entries.push(HelpEntry::bind("Enter", "Select repository").hint("Enter", "select"));
    entries.push(HelpEntry::bind("? / F1", "Show this help").hint("?", "help").aside());
    entries.push(HelpEntry::bind("Esc", "Close popup").hint("Esc", "close").safe().essential());
    entries.push(HelpEntry::bind("q / Ctrl+C", "Quit"));
    entries.push(HelpEntry::Blank);
    entries.push(HelpEntry::Section(FILTER_SECTION));
    entries.push(HelpEntry::bind("Esc", "Leave filter mode").hint("Esc", "list").safe().essential());
    entries.push(HelpEntry::bind("\u{2191} / \u{2193} / Ctrl+K / Ctrl+J", "Move in list").hint("\u{2191}/\u{2193}", "move"));
    entries.push(HelpEntry::bind("Enter", "Select repository").hint("Enter", "select"));
    entries.push(HelpEntry::bind("F1", "Show this help").hint("F1", "help").aside());
    assert(entries@ =~= repositories_table());
    entries
}

/// The repository picker. The list itself outlives the popup; what belongs to the
/// popup is its mode.
#[derive(Debug, PartialEq, Eq)]
pub struct RepositoriesModal {
    pub mode: InputMode,
}

impl Default for RepositoriesModal {
    fn default() -> (modal: Self)
        ensures
            modal.mode == InputMode::Normal,
    {
        RepositoriesModal { mode: InputMode::Normal }
    }
}

impl RepositoriesModal {
    #[verifier::allow_in_spec]
    pub fn new() -> RepositoriesModal
        returns
            (RepositoriesModal { mode: InputMode::Normal }),
    {
        RepositoriesModal { mode: InputMode::Normal }
    }

    /// Where the popup sits inside the frame.
    pub fn area(&self, full: Rect) -> (area: Rect)
        requires
            is_countable(full),
        ensures
            area == popup_in(full, Extent::share(50, 34, 80), Extent::share(50, 8, 30)),
    {
        popup_area(full, Extent::share(50, 34, 80), Extent::share(50, 8, 30))
    }
}

} // verus!
