//! The list of spaces.

use vstd::prelude::*;

use crate::cli::{copy_all, Origin};
use crate::components::filter::{erased, typed, FilterComponent};
use crate::components::list::{
    first_where, lemma_first_where, lemma_is_first, lemma_masked_filter, moved, retain, step,
    Focus, ItemOrder,
};
use crate::components::repositories::RepositoriesComponent;
use crate::components::{Action, EventState};
use crate::fuzzy::{label_view, label_views, score_keys, search};
use crate::order::{arrange, arranged, ints, law_arranged, NameRank};
use crate::text::{concat, debug_of, quoted, same_text};
use crate::vcs::{Backend, Repo, RepoId, Space};
use row::{joined_label, SpaceEntry};
use status::{Activity, EmptyState};

pub mod laws;
pub mod row;
pub mod status;
pub mod view;

verus! {

/// The list of spaces.
#[derive(Debug, PartialEq, Eq)]
pub struct WorktreesComponent {
    pub spaces: Vec<SpaceEntry>,
    pub filter: FilterComponent,
    pub focus: Focus,
    /// The row the user is on, counted among the rows on show.
    pub selected_index: Option<usize>,
    /// How many repositories a running scan has found.
    pub scan: Option<usize>,
    /// Any other work in flight, and how much of it is left.
    pub busy: Option<(Activity, usize)>,
    /// Which picture of the spinner is up.
    pub frame: usize,
    /// Whether a scan has ever reported.
    pub scanned: bool,
    /// How many repositories the last scan reported.
    pub repos_seen: usize,
    /// The directories a scan walks, and where that setting came from.
    pub scan_roots: Vec<String>,
    pub scan_origin: Origin,
    /// The one repository on show, if the list is narrowed to it.
    pub repo_scope: Option<RepoId>,
}

// ---------------------------------------------------------------------------
// The rows on show
// ---------------------------------------------------------------------------

/// Whether an entry belongs to the repository the list is narrowed to.
pub open spec fn is_in_scope(entry: SpaceEntry, scope: Option<RepoId>) -> bool {
    match scope {
        Some(id) => entry.space.repo@ == id@,
        None => true,
    }
}

/// The names rows are listed by.
pub open spec fn name_keys(spaces: Seq<SpaceEntry>, scope: Option<RepoId>) -> Seq<
    Option<NameRank>,
> {
    spaces.map_values(
        |entry: SpaceEntry|
            if is_in_scope(entry, scope) {
                Some(NameRank { repo: entry.repo_name, name: entry.space.name })
            } else {
                None
            },
    )
}

/// The labels rows are searched by.
pub open spec fn search_labels(spaces: Seq<SpaceEntry>, scope: Option<RepoId>) -> Seq<
    Option<Seq<char>>,
> {
    spaces.map_values(
        |entry: SpaceEntry|
            if is_in_scope(entry, scope) {
                Some(joined_label(entry.label_parts()))
            } else {
                None
            },
    )
}

/// The entries on show, in order: by name, or by how well they match the filter.
pub open spec fn rows_of(spaces: Seq<SpaceEntry>, query: Seq<char>, scope: Option<RepoId>) -> Seq<
    int,
> {
    if query.len() == 0 {
        arranged(name_keys(spaces, scope))
    } else {
        arranged(score_keys(query, search_labels(spaces, scope)))
    }
}

/// What tells a row from every other, whatever list it is in: two backends can
/// hold spaces of one name.
pub open spec fn row_key(entry: SpaceEntry) -> (Backend, Seq<char>) {
    (entry.space.backend, entry.space.path@)
}

/// Where the selection goes after the rows changed: to the row it was on, if it
/// is still there, else to where it stood, or the last row.
pub open spec fn restored(
    spaces: Seq<SpaceEntry>,
    query: Seq<char>,
    scope: Option<RepoId>,
    was: Option<usize>,
    anchor: Option<(Backend, Seq<char>)>,
) -> Option<usize> {
    let rows = rows_of(spaces, query, scope);
    if rows.len() == 0 {
        None
    } else {
        let found = match anchor {
            Some(key) => first_where(rows.len(), |i: int| row_key(spaces[rows[i]]) == key),
            None => None,
        };
        match found {
            Some(i) => Some(i as usize),
            None => {
                let stood = match was {
                    Some(i) => i as int,
                    None => 0,
                };
                Some(
                    if stood < rows.len() {
                        stood as usize
                    } else {
                        (rows.len() - 1) as usize
                    },
                )
            },
        }
    }
}

/// The test for the space at a path, among rows.
pub open spec fn at_path(spaces: Seq<SpaceEntry>, rows: Seq<int>, path: Seq<char>) -> spec_fn(
    int,
) -> bool {
    |i: int| spaces[rows[i]].space.path@ == path
}

/// The test for the space of a name, among rows.
pub open spec fn at_name(spaces: Seq<SpaceEntry>, rows: Seq<int>, name: Seq<char>) -> spec_fn(
    int,
) -> bool {
    |i: int| spaces[rows[i]].space.name@ == name
}

/// The test for the space at a path.
pub open spec fn is_at(spaces: Seq<SpaceEntry>, path: Seq<char>) -> spec_fn(int) -> bool {
    |i: int| spaces[i].space.path@ == path
}

/// The spaces without the first one at a path.
pub open spec fn without_path(spaces: Seq<SpaceEntry>, path: Seq<char>) -> Seq<SpaceEntry> {
    match first_where(spaces.len(), is_at(spaces, path)) {
        Some(i) => spaces.remove(i),
        None => spaces,
    }
}

/// Whether a batch holds an entry of the repository `id`.
pub open spec fn arrives(entries: Seq<SpaceEntry>, id: Seq<char>) -> bool {
    exists|k: int| 0 <= k < entries.len() && #[trigger] entries[k].space.repo@ == id
}

/// The rows a batch does not replace.
pub open spec fn untouched(spaces: Seq<SpaceEntry>, entries: Seq<SpaceEntry>) -> Seq<SpaceEntry> {
    spaces.filter(|entry: SpaceEntry| !arrives(entries, entry.space.repo@))
}

/// The test for the rows of every repository but one.
pub open spec fn of_others(id: Seq<char>) -> spec_fn(SpaceEntry) -> bool {
    |entry: SpaceEntry| entry.space.repo@ != id
}

/// The rows of every repository but one.
pub open spec fn rows_of_others(spaces: Seq<SpaceEntry>, id: Seq<char>) -> Seq<SpaceEntry> {
    spaces.filter(of_others(id))
}

impl WorktreesComponent {
    pub open spec fn wf(self) -> bool {
        self.filter.wf()
    }

    /// The entries on show, in order.
    pub open spec fn rows(self) -> Seq<int> {
        rows_of(self.spaces@, self.filter.value@, self.repo_scope)
    }

    /// The entry the user is on.
    pub open spec fn selected(self) -> Option<SpaceEntry> {
        match self.selected_index {
            Some(i) => if i < self.rows().len() {
                Some(self.spaces@[self.rows()[i as int]])
            } else {
                None
            },
            None => None,
        }
    }

    /// What the selection is anchored to while the rows change.
    pub open spec fn anchor(self) -> Option<(Backend, Seq<char>)> {
        match self.selected() {
            Some(entry) => Some(row_key(entry)),
            None => None,
        }
    }

    /// What the indicator says.
    pub open spec fn waiting_for(self) -> Option<(Activity, usize)> {
        match self.scan {
            Some(found) => Some((Activity::Scanning, found)),
            None => self.busy,
        }
    }

    pub fn new(spaces: Vec<SpaceEntry>) -> (list: WorktreesComponent)
        ensures
            list.wf(),
            list.spaces == spaces,
            list.filter.value@ == Seq::<char>::empty(),
            list.focus == Focus::List,
            list.selected_index == (if spaces@.len() == 0 {
                None::<usize>
            } else {
                Some(0usize)
            }),
            list.scan is None,
            list.busy is None,
            list.frame == 0,
            !list.scanned,
            list.repos_seen == 0,
            list.scan_roots@ == Seq::<String>::empty(),
            list.scan_origin == Origin::Default,
            list.repo_scope is None,
    {
        let selected_index = if spaces.len() == 0 {
            None
        } else {
            Some(0)
        };
        WorktreesComponent {
            spaces,
            filter: FilterComponent::new(),
            focus: Focus::List,
            selected_index,
            scan: None,
            busy: None,
            frame: 0,
            scanned: false,
            repos_seen: 0,
            scan_roots: Vec::new(),
            scan_origin: Origin::Default,
            repo_scope: None,
        }
    }

    /// Narrows the list to one repository, or shows them all. Says whether that
    /// changed anything.
    pub fn set_repo_scope(&mut self, scope: Option<RepoId>) -> (changed: bool)
        ensures
            changed == (match (old(self).repo_scope, scope) {
                (Some(a), Some(b)) => a@ != b@,
                (None, None) => false,
                _ => true,
            }),
            *final(self) == (WorktreesComponent {
                repo_scope: if changed {
                    scope
                } else {
                    old(self).repo_scope
                },
                ..*old(self)
            }),
    {
        let same = match (&self.repo_scope, &scope) {
            (Some(a), Some(b)) => a.same(b),
            (None, None) => true,
            _ => false,
        };
        if same {
            return false;
        }
        self.repo_scope = scope;
        true
    }

    fn in_scope(&self, entry: &SpaceEntry) -> (yes: bool)
        ensures
            yes == is_in_scope(*entry, self.repo_scope),
    {
        match &self.repo_scope {
            Some(id) => entry.space.repo.same(id),
            None => true,
        }
    }

    /// Says which directories a scan walks, and where that was decided.
    pub fn set_scan_roots(&mut self, roots: Vec<String>, origin: Origin)
        ensures
            *final(self) == (WorktreesComponent {
                scan_roots: roots,
                scan_origin: origin,
                ..*old(self)
            }),
    {
        self.scan_roots = roots;
        self.scan_origin = origin;
    }

    /// The entries on show, in order.
    pub fn filtered_items(&self) -> (rows: Vec<usize>)
        ensures
            ints(rows@) == self.rows(),
            forall|i: int|
                0 <= i < rows@.len() ==> #[trigger] rows@[i] < self.spaces@.len(),
    {
        if self.filter.value.as_str().is_empty() {
            let mut keys: Vec<Option<NameRank>> = Vec::new();
            let ghost wanted = name_keys(self.spaces@, self.repo_scope);
            let mut i: usize = 0;
            while i < self.spaces.len()
                invariant
                    wanted == name_keys(self.spaces@, self.repo_scope),
                    i <= self.spaces@.len(),
                    keys@ == wanted.take(i as int),
                decreases self.spaces.len() - i,
            {
                let entry = &self.spaces[i];
                let key = if self.in_scope(entry) {
                    Some(
                        NameRank {
                            repo: entry.repo_name.clone(),
                            name: entry.space.name.clone(),
                        },
                    )
                } else {
                    None
                };
                keys.push(key);
                assert(keys@ =~= wanted.take(i + 1));
                i = i + 1;
            }
            assert(keys@ =~= wanted);
            arrange(&keys)
        } else {
            let mut labels: Vec<Option<String>> = Vec::new();
            let ghost wanted = search_labels(self.spaces@, self.repo_scope);
            let mut i: usize = 0;
            assert(label_views(labels@) =~= wanted.take(0));
            while i < self.spaces.len()
                invariant
                    wanted == search_labels(self.spaces@, self.repo_scope),
                    i <= self.spaces@.len(),
                    labels@.len() == i,
                    label_views(labels@) == wanted.take(i as int),
                decreases self.spaces.len() - i,
            {
                let entry = &self.spaces[i];
                let ghost before = label_views(labels@);
                let label = if self.in_scope(entry) {
                    Some(entry.label())
                } else {
                    None
                };
                labels.push(label);
                assert(label_views(labels@) =~= before.push(label_view(label)));
                assert(wanted[i as int] == label_view(label));
                assert(label_views(labels@) =~= wanted.take(i + 1));
                i = i + 1;
            }
            assert(wanted.take(i as int) =~= wanted);
            search(self.filter.value.as_str(), &labels)
        }
    }

    fn selected_entry(&self) -> (at: Option<usize>)
        ensures
            match at {
                Some(i) => i < self.spaces@.len() && self.selected() == Some(
                    self.spaces@[i as int],
                ),
                None => self.selected() is None,
            },
    {
        match self.selected_index {
            Some(index) => {
                let rows = self.filtered_items();
                if index < rows.len() {
                    assert(ints(rows@)[index as int] == rows@[index as int]);
                    Some(rows[index])
                } else {
                    None
                }
            },
            None => None,
        }
    }

    fn selected_key(&self) -> (key: Option<(Backend, String)>)
        ensures
            match key {
                Some((backend, path)) => self.anchor() == Some((backend, path@)),
                None => self.anchor() is None,
            },
    {
        match self.selected_entry() {
            Some(i) => Some((self.spaces[i].space.backend, self.spaces[i].space.path.clone())),
            None => None,
        }
    }

    /// Puts the selection back on `anchor`, or where it stood.
    fn restore_selection(&mut self, anchor: Option<(Backend, String)>)
        ensures
            *final(self) == (WorktreesComponent {
                selected_index: restored(
                    old(self).spaces@,
                    old(self).filter.value@,
                    old(self).repo_scope,
                    old(self).selected_index,
                    match anchor {
                        Some((backend, path)) => Some((backend, path@)),
                        None => None,
                    },
                ),
                ..*old(self)
            }),
    {
        let rows = self.filtered_items();
        let ghost order = self.rows();
        assert(order.len() == rows@.len());
        if rows.len() == 0 {
            self.selected_index = None;
            return;
        }
        if let Some((backend, path)) = &anchor {
            let ghost key = (*backend, path@);
            let ghost test = |i: int| row_key(self.spaces@[order[i]]) == key;
            let mut i: usize = 0;
            while i < rows.len()
                invariant
                    i <= rows@.len(),
                    order == self.rows(),
                    order == ints(rows@),
                    order.len() == rows@.len(),
                    forall|k: int| 0 <= k < rows@.len() ==> #[trigger] rows@[k] < self.spaces@.len(),
                    key == (*backend, path@),
                    test == (|i: int| row_key(self.spaces@[order[i]]) == key),
                    forall|k: int| 0 <= k < i ==> !#[trigger] test(k),
                    *self == *old(self),
                    anchor == Some((*backend, *path)),
                decreases rows.len() - i,
            {
                let entry = &self.spaces[rows[i]];
                assert(order[i as int] == rows@[i as int]);
                if entry.space.backend == *backend && same_text(
                    entry.space.path.as_str(),
                    path.as_str(),
                ) {
                    proof {
                        assert(test(i as int));
                        lemma_is_first(order.len(), test, i as int);
                    }
                    self.selected_index = Some(i);
                    return;
                }
                assert(!test(i as int));
                i = i + 1;
            }
            proof {
                lemma_first_where(order.len(), test);
            }
        }
        let stood: usize = match self.selected_index {
            Some(i) => i,
            None => 0,
        };
        self.selected_index = Some(
            if stood < rows.len() {
                stood
            } else {
                rows.len() - 1
            },
        );
    }

    /// Whether `next` is this list with other rows, and the user where they were.
    pub open spec fn relisted(self, spaces: Seq<SpaceEntry>, next: WorktreesComponent) -> bool {
        &&& next.spaces@ == spaces
        &&& next == (WorktreesComponent {
            spaces: next.spaces,
            selected_index: restored(
                spaces,
                self.filter.value@,
                self.repo_scope,
                self.selected_index,
                self.anchor(),
            ),
            ..self
        })
    }

    /// Replaces every row, keeping the user where they were; the filter and the
    /// focus are not about the rows and stay.
    pub fn set_spaces(&mut self, spaces: Vec<SpaceEntry>)
        ensures
            old(self).relisted(spaces@, *final(self)),
    {
        let anchor = self.selected_key();
        self.spaces = spaces;
        self.restore_selection(anchor);
    }

    /// Adds the rows of a batch of repositories in place of what those same
    /// repositories had before.
    pub fn extend(&mut self, entries: Vec<SpaceEntry>)
        ensures
            old(self).relisted(untouched(old(self).spaces@, entries@) + entries@, *final(self)),
    {
        let anchor = self.selected_key();
        let ghost before = self.spaces@;
        let mut keep: Vec<bool> = Vec::new();
        let mut i: usize = 0;
        while i < self.spaces.len()
            invariant
                i <= self.spaces@.len(),
                keep@.len() == i,
                forall|k: int|
                    0 <= k < i ==> keep@[k] == !arrives(
                        entries@,
                        (#[trigger] self.spaces@[k]).space.repo@,
                    ),
            decreases self.spaces.len() - i,
        {
            keep.push(!holds_repo(&entries, &self.spaces[i].space.repo));
            i = i + 1;
        }
        retain(&mut self.spaces, &keep);
        proof {
            lemma_masked_filter(
                before,
                keep@,
                |entry: SpaceEntry| !arrives(entries@, entry.space.repo@),
            );
        }
        let mut entries = entries;
        self.spaces.append(&mut entries);
        self.restore_selection(anchor);
    }

    /// Replaces the rows of exactly one repository, which may leave it none.
    pub fn replace_spaces_of(&mut self, repo: &RepoId, entries: Vec<SpaceEntry>)
        ensures
            old(self).relisted(rows_of_others(old(self).spaces@, repo@) + entries@, *final(self)),
    {
        let anchor = self.selected_key();
        let ghost before = self.spaces@;
        let mut keep: Vec<bool> = Vec::new();
        let mut i: usize = 0;
        while i < self.spaces.len()
            invariant
                i <= self.spaces@.len(),
                keep@.len() == i,
                forall|k: int|
                    0 <= k < i ==> keep@[k] == ((#[trigger] self.spaces@[k]).space.repo@ != repo@),
            decreases self.spaces.len() - i,
        {
            keep.push(!self.spaces[i].space.repo.same(repo));
            i = i + 1;
        }
        retain(&mut self.spaces, &keep);
        proof {
            lemma_masked_filter(before, keep@, of_others(repo@));
        }
        let mut entries = entries;
        self.spaces.append(&mut entries);
        self.restore_selection(anchor);
    }

    /// Reports how many repositories a scan has found, and whether it is still
    /// running. The count outlives the scan; the spinner does not.
    pub fn set_scan(&mut self, found: usize, scanning: bool)
        ensures
            *final(self) == (WorktreesComponent {
                scanned: true,
                repos_seen: found,
                scan: if scanning {
                    Some(found)
                } else {
                    None
                },
                ..*old(self)
            }),
    {
        self.scanned = true;
        self.repos_seen = found;
        self.scan = if scanning {
            Some(found)
        } else {
            None
        };
    }

    /// Says what else is running, and how much of it is left.
    pub fn set_busy(&mut self, busy: Option<(Activity, usize)>)
        ensures
            *final(self) == (WorktreesComponent { busy, ..*old(self) }),
    {
        self.busy = busy;
    }

    /// What the indicator says: a scan speaks over the work beneath it.
    pub fn progress(&self) -> (progress: Option<(Activity, usize)>)
        ensures
            progress == self.waiting_for(),
    {
        match self.scan {
            Some(found) => Some((Activity::Scanning, found)),
            None => self.busy,
        }
    }

    /// Advances the spinner by one picture.
    pub fn tick(&mut self)
        ensures
            *final(self) == (WorktreesComponent {
                frame: if old(self).frame == usize::MAX {
                    0
                } else {
                    (old(self).frame + 1) as usize
                },
                ..*old(self)
            }),
    {
        self.frame = if self.frame == usize::MAX {
            0
        } else {
            self.frame + 1
        };
    }

    /// Whether `state` is why the pane is empty. The answers are taken in the
    /// order they become knowable.
    pub open spec fn is_empty_because(self, state: EmptyState) -> bool {
        if self.scan is Some {
            state is Scanning
        } else if self.filter.value@.len() > 0 {
            state is Filtered
        } else if !self.scanned {
            state is Unknown
        } else if self.repos_seen == 0 {
            state matches EmptyState::NoRepositories { roots, origin } && roots@
                == self.scan_roots@ && origin == self.scan_origin
        } else if self.repo_scope is Some {
            state is NoSpacesHere
        } else {
            state matches EmptyState::NoSpaces { repos } && repos == self.repos_seen
        }
    }

    /// Why the pane is empty.
    pub fn empty_state(&self) -> (state: EmptyState)
        ensures
            self.is_empty_because(state),
    {
        if self.scan.is_some() {
            EmptyState::Scanning
        } else if !self.filter.value.as_str().is_empty() {
            EmptyState::Filtered
        } else if !self.scanned {
            EmptyState::Unknown
        } else if self.repos_seen == 0 {
            EmptyState::NoRepositories {
                roots: copy_all(&self.scan_roots),
                origin: self.scan_origin,
            }
        } else if self.repo_scope.is_some() {
            EmptyState::NoSpacesHere
        } else {
            EmptyState::NoSpaces { repos: self.repos_seen }
        }
    }

    /// Moves to the first row, or to none where there is none.
    pub fn select_first(&mut self)
        ensures
            *final(self) == (WorktreesComponent {
                selected_index: if old(self).rows().len() > 0 {
                    Some(0)
                } else {
                    None
                },
                ..*old(self)
            }),
    {
        let rows = self.filtered_items();
        assert(ints(rows@).len() == rows@.len());
        self.selected_index = if rows.len() > 0 {
            Some(0)
        } else {
            None
        };
    }

    fn select(&mut self, order: ItemOrder)
        ensures
            *final(self) == (WorktreesComponent {
                selected_index: moved(order, old(self).selected_index, old(self).rows().len()),
                ..*old(self)
            }),
    {
        let rows = self.filtered_items();
        assert(ints(rows@).len() == rows@.len());
        self.selected_index = step(order, self.selected_index, rows.len());
    }

    /// What a key does to the list.
    pub open spec fn after(self, action: Action, next: WorktreesComponent) -> bool {
        match action {
            Action::MoveDown => next == (WorktreesComponent {
                selected_index: moved(ItemOrder::Next, self.selected_index, self.rows().len()),
                ..self
            }),
            Action::MoveUp => next == (WorktreesComponent {
                selected_index: moved(ItemOrder::Previous, self.selected_index, self.rows().len()),
                ..self
            }),
            Action::GoFirst => next == (WorktreesComponent {
                selected_index: moved(ItemOrder::First, self.selected_index, self.rows().len()),
                ..self
            }),
            Action::GoLast => next == (WorktreesComponent {
                selected_index: moved(ItemOrder::Last, self.selected_index, self.rows().len()),
                ..self
            }),
            Action::InsertChar(c) => {
                &&& next.filter.line() == typed(self.filter.value@, self.filter.cursor as nat, c)
                &&& next == (WorktreesComponent {
                    filter: next.filter,
                    selected_index: moved(
                        ItemOrder::First,
                        self.selected_index,
                        rows_of(self.spaces@, next.filter.value@, self.repo_scope).len(),
                    ),
                    ..self
                })
            },
            Action::DeleteChar => {
                &&& next.filter.line() == erased(self.filter.value@, self.filter.cursor as nat)
                &&& next == (WorktreesComponent {
                    filter: next.filter,
                    selected_index: moved(
                        ItemOrder::First,
                        self.selected_index,
                        rows_of(self.spaces@, next.filter.value@, self.repo_scope).len(),
                    ),
                    ..self
                })
            },
            _ => next == self,
        }
    }

    /// What a key means to the list: Enter leaves with the selected space.
    pub open spec fn state_after(self, action: Action) -> EventState {
        match action {
            Action::Select => if self.selected() is Some {
                EventState::Exit
            } else {
                EventState::Consumed
            },
            Action::MoveDown | Action::MoveUp | Action::GoFirst | Action::GoLast
            | Action::InsertChar(_) | Action::DeleteChar => EventState::Consumed,
            _ => EventState::NotConsumed,
        }
    }

    /// Acts on a key of the list.
    pub fn handle_action(&mut self, action: Action) -> (state: EventState)
        requires
            old(self).wf(),
        ensures
            final(self).wf(),
            old(self).after(action, *final(self)),
            state == old(self).state_after(action),
    {
        match action {
            Action::MoveDown => {
                self.select(ItemOrder::Next);
                EventState::Consumed
            },
            Action::MoveUp => {
                self.select(ItemOrder::Previous);
                EventState::Consumed
            },
            Action::GoFirst => {
                self.select(ItemOrder::First);
                EventState::Consumed
            },
            Action::GoLast => {
                self.select(ItemOrder::Last);
                EventState::Consumed
            },
            Action::Select => if self.selected_worktree_path().is_some() {
                EventState::Exit
            } else {
                EventState::Consumed
            },
            Action::InsertChar(c) => {
                self.filter.enter_char(c);
                self.select(ItemOrder::First);
                EventState::Consumed
            },
            Action::DeleteChar => {
                self.filter.delete_char();
                self.select(ItemOrder::First);
                EventState::Consumed
            },
            _ => EventState::NotConsumed,
        }
    }

    pub fn focus_filter(&mut self)
        ensures
            *final(self) == (WorktreesComponent { focus: Focus::Filter, ..*old(self) }),
    {
        self.focus = Focus::Filter;
    }

    pub fn focus_list(&mut self)
        ensures
            *final(self) == (WorktreesComponent { focus: Focus::List, ..*old(self) }),
    {
        self.focus = Focus::List;
    }

    pub fn toggle_focus(&mut self)
        ensures
            *final(self) == (WorktreesComponent {
                focus: match old(self).focus {
                    Focus::Filter => Focus::List,
                    Focus::List => Focus::Filter,
                },
                ..*old(self)
            }),
    {
        self.focus = match self.focus {
            Focus::Filter => Focus::List,
            Focus::List => Focus::Filter,
        };
    }

    #[verifier::allow_in_spec]
    pub fn is_filter_focused(&self) -> bool
        returns
            self.focus is Filter,
    {
        matches!(self.focus, Focus::Filter)
    }

    /// Whether some space has this name, whatever is on show.
    pub open spec fn has_name(self, name: Seq<char>) -> bool {
        exists|k: int| 0 <= k < self.spaces@.len() && #[trigger] self.spaces@[k].space.name@ == name
    }

    /// The first row of an unfiltered list that has this name.
    pub open spec fn row_named(self, name: Seq<char>) -> Option<int> {
        let rows = rows_of(self.spaces@, Seq::empty(), self.repo_scope);
        first_where(rows.len(), at_name(self.spaces@, rows, name))
    }

    /// Whether the space of this name can be selected.
    pub open spec fn can_show(self, name: Seq<char>) -> bool {
        self.has_name(name) && self.row_named(name) is Some
    }

    /// Whether `next` is this list with the filter cleared and the space of this
    /// name selected. Where there is no such space nothing changes.
    pub open spec fn shown(self, name: Seq<char>, next: WorktreesComponent) -> bool {
        if self.has_name(name) {
            &&& next.filter.value@ == Seq::<char>::empty()
            &&& next == (WorktreesComponent {
                filter: next.filter,
                selected_index: match self.row_named(name) {
                    Some(i) => Some(i as usize),
                    None => self.selected_index,
                },
                ..self
            })
        } else {
            next == self
        }
    }

    /// Clears the filter and selects the space of this name, if there is one.
    pub fn select_worktree_by_branch(&mut self, branch: &str) -> (found: bool)
        requires
            old(self).wf(),
        ensures
            final(self).wf(),
            found == old(self).can_show(branch@),
            old(self).shown(branch@, *final(self)),
    {
        let mut exists = false;
        let mut i: usize = 0;
        while i < self.spaces.len()
            invariant
                *self == *old(self),
                i <= self.spaces@.len(),
                exists == (exists|k: int|
                    0 <= k < i && #[trigger] self.spaces@[k].space.name@ == branch@),
            decreases self.spaces.len() - i,
        {
            if same_text(self.spaces[i].space.name.as_str(), branch) {
                exists = true;
            }
            i = i + 1;
        }
        if !exists {
            return false;
        }
        self.filter.clear();
        let rows = self.filtered_items();
        let ghost order = self.rows();
        let ghost test = at_name(self.spaces@, order, branch@);
        let mut i: usize = 0;
        while i < rows.len()
            invariant
                i <= rows@.len(),
                order == ints(rows@),
                order.len() == rows@.len(),
                order == rows_of(self.spaces@, Seq::empty(), self.repo_scope),
                forall|k: int| 0 <= k < rows@.len() ==> #[trigger] rows@[k] < self.spaces@.len(),
                test == at_name(self.spaces@, order, branch@),
                forall|k: int| 0 <= k < i ==> !#[trigger] test(k),
                *self == (WorktreesComponent { filter: self.filter, ..*old(self) }),
                self.filter.wf(),
                self.filter.value@ == Seq::<char>::empty(),
                old(self).has_name(branch@),
            decreases rows.len() - i,
        {
            assert(order[i as int] == rows@[i as int]);
            if same_text(self.spaces[rows[i]].space.name.as_str(), branch) {
                proof {
                    assert(test(i as int));
                    lemma_is_first(order.len(), test, i as int);
                    assert(old(self).row_named(branch@) == first_where(order.len(), test));
                }
                self.selected_index = Some(i);
                return true;
            }
            assert(!test(i as int));
            i = i + 1;
        }
        proof {
            lemma_first_where(order.len(), test);
            assert(old(self).row_named(branch@) == first_where(order.len(), test));
        }
        false
    }

    /// Whether `next` is this list with `entry` at its end, selected if it is on
    /// show.
    pub open spec fn added(self, entry: SpaceEntry, next: WorktreesComponent) -> bool {
        let rows = rows_of(self.spaces@.push(entry), self.filter.value@, self.repo_scope);
        &&& next.spaces@ == self.spaces@.push(entry)
        &&& next == (WorktreesComponent {
            spaces: next.spaces,
            selected_index: match first_where(
                rows.len(),
                at_path(self.spaces@.push(entry), rows, entry.space.path@),
            ) {
                Some(i) => Some(i as usize),
                None => None,
            },
            ..self
        })
    }

    /// Adds a space and selects it, if it is on show.
    pub fn add(&mut self, entry: SpaceEntry)
        ensures
            old(self).added(entry, *final(self)),
    {
        let path = entry.space.path.clone();
        self.spaces.push(entry);
        let rows = self.filtered_items();
        let ghost order = self.rows();
        let ghost spaces = self.spaces@;
        let ghost test = at_path(spaces, order, path@);
        let mut index: Option<usize> = None;
        let mut i: usize = 0;
        while i < rows.len() && index.is_none()
            invariant
                i <= rows@.len(),
                spaces == self.spaces@,
                order == ints(rows@),
                order.len() == rows@.len(),
                forall|k: int| 0 <= k < rows@.len() ==> #[trigger] rows@[k] < self.spaces@.len(),
                test == at_path(spaces, order, path@),
                match index {
                    Some(j) => first_where(order.len(), test) == Some(j as int),
                    None => forall|k: int| 0 <= k < i ==> !#[trigger] test(k),
                },
            decreases rows.len() - i,
        {
            assert(order[i as int] == rows@[i as int]);
            if same_text(self.spaces[rows[i]].space.path.as_str(), path.as_str()) {
                proof {
                    assert(test(i as int));
                    lemma_is_first(order.len(), test, i as int);
                }
                index = Some(i);
            } else {
                assert(!test(i as int));
            }
            i = i + 1;
        }
        proof {
            lemma_first_where(order.len(), test);
        }
        self.selected_index = index;
    }

    /// The path of the selected space.
    pub fn selected_worktree_path(&self) -> (path: Option<String>)
        ensures
            match (path, self.selected()) {
                (Some(path), Some(entry)) => path == entry.space.path,
                (None, None) => true,
                _ => false,
            },
    {
        match self.selected_entry() {
            Some(i) => Some(self.spaces[i].space.path.clone()),
            None => None,
        }
    }

    /// A copy of the selected space.
    pub fn selected_space(&self) -> (space: Option<Space>)
        ensures
            match (space, self.selected()) {
                (Some(space), Some(entry)) => space == entry.space,
                (None, None) => true,
                _ => false,
            },
    {
        match self.selected_entry() {
            Some(i) => Some(self.spaces[i].space.clone()),
            None => None,
        }
    }
}

// ---------------------------------------------------------------------------
// Deletion
// ---------------------------------------------------------------------------

/// A space to delete, and the repository to delete it through.
#[derive(Debug, PartialEq, Eq)]
pub struct Deletion {
    pub space: Space,
    pub repo: Repo,
}

/// Said of a space that nothing on hand can delete.
pub open spec fn undeletable(name: Seq<char>) -> Seq<char> {
    "no open repository for the space "@ + debug_of(name) + "; it cannot be deleted"@
}

impl WorktreesComponent {
    /// The space a deletion is about: the first at the selected path.
    pub open spec fn doomed(self) -> Option<Space> {
        match self.selected() {
            Some(entry) => match first_where(
                self.spaces@.len(),
                is_at(self.spaces@, entry.space.path@),
            ) {
                Some(i) => Some(self.spaces@[i].space),
                None => None,
            },
            None => None,
        }
    }

    /// What deleting the selected space takes: the backend that owns it, since a
    /// space cannot act on itself. Without a selection there is nothing to do.
    pub fn delete_selected_space(&self, repos: &RepositoriesComponent) -> (plan: Result<
        Option<Deletion>,
        String,
    >)
        ensures
            match self.doomed() {
                Some(space) => match repos.owner_of(space) {
                    Some(repo) => plan == Ok::<_, String>(Some(Deletion { space, repo })),
                    None => plan matches Err(text) && text@ == undeletable(space.name@),
                },
                None => plan == Ok::<_, String>(None::<Deletion>),
            },
            plan matches Ok(None) <==> self.selected() is None,
            plan matches Ok(Some(deletion)) ==> deletion.space.path@
                == self.selected()->0.space.path@ && deletion.repo.id@ == deletion.space.repo@
                && deletion.repo.backend == deletion.space.backend,
    {
        proof {
            laws::law_a_deletion_is_of_the_selected_row(*self);
            if let Some(space) = self.doomed() {
                laws::law_a_space_is_deleted_through_its_owner(*repos, space);
            }
        }
        let path = match self.selected_worktree_path() {
            Some(path) => path,
            None => return Ok(None),
        };
        let at = match self.space_at(path.as_str()) {
            Some(at) => at,
            None => return Ok(None),
        };
        let space = &self.spaces[at].space;
        match repos.backend_for(space) {
            Some(repo) => Ok(Some(Deletion { space: space.clone(), repo: repo.clone() })),
            None => {
                let mut text = concat(
                    "no open repository for the space ",
                    quoted(space.name.as_str()).as_str(),
                );
                text.append("; it cannot be deleted");
                Err(text)
            },
        }
    }

    /// The first space at `path`.
    fn space_at(&self, path: &str) -> (at: Option<usize>)
        ensures
            match at {
                Some(i) => i < self.spaces@.len() && first_where(
                    self.spaces@.len(),
                    is_at(self.spaces@, path@),
                ) == Some(i as int),
                None => first_where(self.spaces@.len(), is_at(self.spaces@, path@)) is None,
            },
    {
        let ghost test = is_at(self.spaces@, path@);
        let mut i: usize = 0;
        while i < self.spaces.len()
            invariant
                i <= self.spaces@.len(),
                test == is_at(self.spaces@, path@),
                forall|k: int| 0 <= k < i ==> !#[trigger] test(k),
            decreases self.spaces.len() - i,
        {
            if same_text(self.spaces[i].space.path.as_str(), path) {
                proof {
                    assert(test(i as int));
                    lemma_is_first(self.spaces@.len(), test, i as int);
                }
                return Some(i);
            }
            assert(!test(i as int));
            i = i + 1;
        }
        proof {
            lemma_first_where(self.spaces@.len(), test);
        }
        None
    }

    /// Drops the row of a space that is gone. Only a deletion that succeeded
    /// comes here: a space that still exists must not vanish from the list.
    pub fn forget_space(&mut self, path: &str)
        ensures
            old(self).forgot(path@, *final(self)),
    {
        if let Some(at) = self.space_at(path) {
            self.spaces.remove(at);
        }
    }

    /// Whether `next` is this list without the first space at a path.
    pub open spec fn forgot(self, path: Seq<char>, next: WorktreesComponent) -> bool {
        &&& next.spaces@ == without_path(self.spaces@, path)
        &&& next == (WorktreesComponent { spaces: next.spaces, ..self })
    }
}

/// Whether a batch holds an entry of the repository.
fn holds_repo(entries: &Vec<SpaceEntry>, id: &RepoId) -> (yes: bool)
    ensures
        yes == arrives(entries@, id@),
{
    let mut i: usize = 0;
    while i < entries.len()
        invariant
            i <= entries@.len(),
            forall|k: int| 0 <= k < i ==> (#[trigger] entries@[k]).space.repo@ != id@,
        decreases entries.len() - i,
    {
        if entries[i].space.repo.same(id) {
            assert(entries@[i as int].space.repo@ == id@);
            return true;
        }
        i = i + 1;
    }
    false
}

// ---------------------------------------------------------------------------
// Laws
// ---------------------------------------------------------------------------

/// Every row on show is a space of the list, each at most once, and belongs to
/// the repository the list is narrowed to. Without a filter every such space is
/// on show.
pub proof fn law_rows_are_spaces(spaces: Seq<SpaceEntry>, query: Seq<char>, scope: Option<RepoId>)
    ensures
        ({
            let rows = rows_of(spaces, query, scope);
            &&& rows.no_duplicates()
            &&& forall|i: int|
                0 <= i < rows.len() ==> 0 <= #[trigger] rows[i] < spaces.len() && is_in_scope(
                    spaces[rows[i]],
                    scope,
                )
            &&& query.len() == 0 ==> forall|x: int|
                0 <= x < spaces.len() && is_in_scope(spaces[x], scope)
                    ==> #[trigger] rows.contains(x)
        }),
{
    let rows = rows_of(spaces, query, scope);
    if query.len() == 0 {
        let keys = name_keys(spaces, scope);
        law_arranged(keys);
        assert forall|i: int| 0 <= i < rows.len() implies 0 <= #[trigger] rows[i] < spaces.len()
            && is_in_scope(spaces[rows[i]], scope) by {
            assert(keys[rows[i]] is Some);
        }
        assert forall|x: int|
            0 <= x < spaces.len() && is_in_scope(spaces[x], scope) implies #[trigger] rows.contains(
            x,
        ) by {
            assert(keys[x] is Some);
        }
    } else {
        let keys = score_keys(query, search_labels(spaces, scope));
        law_arranged(keys);
        assert forall|i: int| 0 <= i < rows.len() implies 0 <= #[trigger] rows[i] < spaces.len()
            && is_in_scope(spaces[rows[i]], scope) by {
            assert(keys[rows[i]] is Some);
            assert(search_labels(spaces, scope)[rows[i]] is Some);
        }
    }
}

/// Whatever happens to the rows, the user stays on the row they were on if it
/// is still on show.
pub proof fn law_the_selected_row_is_kept(
    spaces: Seq<SpaceEntry>,
    query: Seq<char>,
    scope: Option<RepoId>,
    was: Option<usize>,
    anchor: (Backend, Seq<char>),
)
    requires
        rows_of(spaces, query, scope).len() <= usize::MAX,
        exists|i: int|
            0 <= i < rows_of(spaces, query, scope).len() && #[trigger] row_key(
                spaces[rows_of(spaces, query, scope)[i]],
            ) == anchor,
    ensures
        restored(spaces, query, scope, was, Some(anchor)) matches Some(i) && i < rows_of(
            spaces,
            query,
            scope,
        ).len() && row_key(spaces[rows_of(spaces, query, scope)[i as int]]) == anchor,
{
    let rows = rows_of(spaces, query, scope);
    let test = |i: int| row_key(spaces[rows[i]]) == anchor;
    let i = choose|i: int| 0 <= i < rows.len() && #[trigger] row_key(spaces[rows[i]]) == anchor;
    assert(test(i));
    lemma_first_where(rows.len(), test);
}

/// A selection is always on a row that is on show, and there is one whenever
/// there are rows.
pub proof fn law_a_restored_selection_is_on_a_row(
    spaces: Seq<SpaceEntry>,
    query: Seq<char>,
    scope: Option<RepoId>,
    was: Option<usize>,
    anchor: Option<(Backend, Seq<char>)>,
)
    requires
        rows_of(spaces, query, scope).len() <= usize::MAX,
    ensures
        match restored(spaces, query, scope, was, anchor) {
            Some(i) => i < rows_of(spaces, query, scope).len(),
            None => rows_of(spaces, query, scope).len() == 0,
        },
{
    let rows = rows_of(spaces, query, scope);
    if let Some(key) = anchor {
        lemma_first_where(rows.len(), |i: int| row_key(spaces[rows[i]]) == key);
    }
}

/// A batch replaces the rows of its own repositories and no others: taking it in
/// twice leaves the list as taking it in once does.
pub proof fn law_a_batch_is_idempotent(spaces: Seq<SpaceEntry>, entries: Seq<SpaceEntry>)
    ensures
        untouched(untouched(spaces, entries) + entries, entries) + entries == untouched(
            spaces,
            entries,
        ) + entries,
{
    let keep = |entry: SpaceEntry| !arrives(entries, entry.space.repo@);
    let once = spaces.filter(keep);
    lemma_filter_parts(once, entries, keep);
    lemma_filter_keeps(spaces, keep);
    lemma_filter_all(once, keep);
    assert forall|k: int| 0 <= k < entries.len() implies !keep(#[trigger] entries[k]) by {
        assert(entries[k].space.repo@ == entries[k].space.repo@);
    }
    lemma_filter_none(entries, keep);
    assert(once + Seq::<SpaceEntry>::empty() =~= once);
}

/// A repository that has no spaces left loses its rows, and every other row
/// stays.
pub proof fn law_an_emptied_repository_loses_its_rows(spaces: Seq<SpaceEntry>, id: Seq<char>)
    ensures
        forall|i: int|
            0 <= i < rows_of_others(spaces, id).len() ==> (#[trigger] rows_of_others(
                spaces,
                id,
            )[i]).space.repo@ != id,
        forall|x: int|
            0 <= x < spaces.len() && (#[trigger] spaces[x]).space.repo@ != id ==> rows_of_others(
                spaces,
                id,
            ).contains(spaces[x]),
{
    let keep = of_others(id);
    lemma_filter_keeps(spaces, keep);
    assert forall|i: int| 0 <= i < rows_of_others(spaces, id).len() implies (
    #[trigger] rows_of_others(spaces, id)[i]).space.repo@ != id by {
        assert(keep(spaces.filter(keep)[i]));
    }
    assert forall|x: int|
        0 <= x < spaces.len() && (#[trigger] spaces[x]).space.repo@ != id implies rows_of_others(
        spaces,
        id,
    ).contains(spaces[x]) by {
        assert(keep(spaces[x]));
    }
}

/// What a filter keeps was there.
pub(crate) proof fn lemma_filter_comes_from(
    items: Seq<SpaceEntry>,
    test: spec_fn(SpaceEntry) -> bool,
)
    ensures
        forall|i: int|
            0 <= i < items.filter(test).len() ==> items.contains(#[trigger] items.filter(test)[i]),
    decreases items.len(),
{
    reveal(Seq::filter);
    if items.len() > 0 {
        let rest = items.drop_last();
        lemma_filter_comes_from(rest, test);
        let kept = items.filter(test);
        assert forall|i: int| 0 <= i < kept.len() implies items.contains(#[trigger] kept[i]) by {
            if i < rest.filter(test).len() {
                assert(kept[i] == rest.filter(test)[i]);
                let k = choose|k: int| 0 <= k < rest.len() && rest[k] == kept[i];
                assert(items[k] == kept[i]);
            } else {
                assert(items[items.len() - 1] == kept[i]);
            }
        }
    }
}

/// A filter keeps what passes, and nothing else.
pub(crate) proof fn lemma_filter_keeps(items: Seq<SpaceEntry>, test: spec_fn(SpaceEntry) -> bool)
    ensures
        forall|i: int| 0 <= i < items.filter(test).len() ==> test(#[trigger] items.filter(test)[i]),
        forall|x: int|
            0 <= x < items.len() && test(#[trigger] items[x]) ==> items.filter(test).contains(
                items[x],
            ),
    decreases items.len(),
{
    reveal(Seq::filter);
    if items.len() > 0 {
        let rest = items.drop_last();
        lemma_filter_keeps(rest, test);
        let kept = items.filter(test);
        assert forall|x: int| 0 <= x < items.len() && test(#[trigger] items[x]) implies kept.contains(
            items[x],
        ) by {
            if x < rest.len() {
                assert(rest[x] == items[x]);
                let k = choose|k: int|
                    0 <= k < rest.filter(test).len() && rest.filter(test)[k] == items[x];
                assert(kept[k] == items[x]);
            } else {
                assert(kept[kept.len() - 1] == items[x]);
            }
        }
    }
}

proof fn lemma_filter_parts(
    a: Seq<SpaceEntry>,
    b: Seq<SpaceEntry>,
    test: spec_fn(SpaceEntry) -> bool,
)
    ensures
        (a + b).filter(test) == a.filter(test) + b.filter(test),
    decreases b.len(),
{
    reveal(Seq::filter);
    if b.len() == 0 {
        assert(a + b =~= a);
        assert(a.filter(test) + b.filter(test) =~= a.filter(test));
    } else {
        assert((a + b).drop_last() =~= a + b.drop_last());
        lemma_filter_parts(a, b.drop_last(), test);
        assert((a + b).filter(test) =~= a.filter(test) + b.filter(test));
    }
}

proof fn lemma_filter_all(items: Seq<SpaceEntry>, test: spec_fn(SpaceEntry) -> bool)
    requires
        forall|i: int| 0 <= i < items.len() ==> test(#[trigger] items[i]),
    ensures
        items.filter(test) == items,
    decreases items.len(),
{
    reveal(Seq::filter);
    if items.len() > 0 {
        lemma_filter_all(items.drop_last(), test);
        assert(items.drop_last().push(items.last()) =~= items);
    } else {
        assert(items.filter(test) =~= items);
    }
}

proof fn lemma_filter_none(items: Seq<SpaceEntry>, test: spec_fn(SpaceEntry) -> bool)
    requires
        forall|i: int| 0 <= i < items.len() ==> !test(#[trigger] items[i]),
    ensures
        items.filter(test) == Seq::<SpaceEntry>::empty(),
    decreases items.len(),
{
    reveal(Seq::filter);
    if items.len() > 0 {
        lemma_filter_none(items.drop_last(), test);
    } else {
        assert(items.filter(test) =~= Seq::<SpaceEntry>::empty());
    }
}

} // verus!
