//! What holds of the list of spaces: what is on show, where the user is, and what
//! is acted on.

use vstd::prelude::*;

use super::row::{joined_label, SpaceEntry};
use super::status::{Activity, EmptyState};
use super::{
    at_name, at_path, is_in_scope, name_keys, restored, row_key, rows_of, search_labels, untouched,
    without_path, WorktreesComponent,
};
use crate::components::list::{first_where, lemma_first_where};
use crate::components::repositories::RepositoriesComponent;
use crate::components::Action;
use crate::fuzzy::{
    finds, law_a_search_lists_the_best_first, law_a_search_lists_what_every_word_finds, score_of,
    scores_of, total_of,
};
use crate::order::{law_arranged, law_one_of_two_texts_comes_first, text_before, NameRank, Rank};
use crate::text::words_of;
use crate::vcs::{Backend, RepoId, Space};

verus! {

// ---------------------------------------------------------------------------
// What is on show
// ---------------------------------------------------------------------------

/// The text a row shows: its repository and its name, or its repository alone
/// where it is the repository's own working copy.
pub open spec fn shown_text(entry: SpaceEntry) -> Seq<char> {
    if entry.space.path@ == entry.repo_path@ {
        entry.repo_name@
    } else {
        entry.repo_name@ + " / "@ + entry.space.name@
    }
}

/// A row is searched by exactly what it shows.
pub proof fn law_a_row_is_searched_by_what_it_shows(
    spaces: Seq<SpaceEntry>,
    scope: Option<RepoId>,
    x: int,
)
    requires
        0 <= x < spaces.len(),
    ensures
        joined_label(spaces[x].label_parts()) == shown_text(spaces[x]),
        spaces[x].space.path@ == spaces[x].repo_path@ ==> shown_text(spaces[x])
            == spaces[x].repo_name@,
        spaces[x].space.path@ != spaces[x].repo_path@ ==> shown_text(spaces[x])
            == spaces[x].repo_name@ + " / "@ + spaces[x].space.name@,
        search_labels(spaces, scope)[x] == (if (scope matches Some(id)
            ==> spaces[x].space.repo@ == id@) {
            Some(shown_text(spaces[x]))
        } else {
            None
        }),
{
}

/// With a filter a row is on show exactly where it is in scope and every word of
/// the filter is found in what the row shows.
pub proof fn law_a_filter_shows_what_every_word_finds(
    spaces: Seq<SpaceEntry>,
    query: Seq<char>,
    scope: Option<RepoId>,
    x: int,
)
    requires
        query.len() > 0,
        0 <= x < spaces.len(),
    ensures
        rows_of(spaces, query, scope).contains(x) <==> (scope matches Some(id)
            ==> spaces[x].space.repo@ == id@) && forall|k: int|
            0 <= k < words_of(query).len() ==> finds(
                #[trigger] words_of(query)[k],
                score_of(words_of(query)[k], shown_text(spaces[x])),
            ),
{
    law_a_search_lists_what_every_word_finds(query, search_labels(spaces, scope), x);
    law_a_row_is_searched_by_what_it_shows(spaces, scope, x);
}

/// With a filter the row that matches best comes first, and rows that match alike
/// stay in the order they came.
pub proof fn law_a_filter_shows_the_best_first(
    spaces: Seq<SpaceEntry>,
    query: Seq<char>,
    scope: Option<RepoId>,
    i: int,
    j: int,
)
    requires
        query.len() > 0,
        0 <= i < j < rows_of(spaces, query, scope).len(),
    ensures
        ({
            let rows = rows_of(spaces, query, scope);
            let words = words_of(query);
            let above = total_of(words, scores_of(words, shown_text(spaces[rows[i]])));
            let below = total_of(words, scores_of(words, shown_text(spaces[rows[j]])));
            &&& above is Some
            &&& below is Some
            &&& above->0 as u128 >= below->0 as u128
            &&& above->0 as u128 == below->0 as u128 ==> rows[i] < rows[j]
        }),
{
    let labels = search_labels(spaces, scope);
    let rows = rows_of(spaces, query, scope);
    law_a_search_lists_the_best_first(query, labels, i, j);
    super::law_rows_are_spaces(spaces, query, scope);
    law_a_row_is_searched_by_what_it_shows(spaces, scope, rows[i]);
    law_a_row_is_searched_by_what_it_shows(spaces, scope, rows[j]);
}

/// Without a filter every row in scope is on show, by repository and then by name,
/// and rows of one name in the order they came.
pub proof fn law_rows_are_listed_by_name(
    spaces: Seq<SpaceEntry>,
    scope: Option<RepoId>,
    i: int,
    j: int,
    x: int,
)
    requires
        0 <= i < j < rows_of(spaces, Seq::empty(), scope).len(),
        0 <= x < spaces.len(),
    ensures
        rows_of(spaces, Seq::empty(), scope).contains(x) <==> (scope matches Some(id)
            ==> spaces[x].space.repo@ == id@),
        ({
            let rows = rows_of(spaces, Seq::empty(), scope);
            let above = spaces[rows[i]];
            let below = spaces[rows[j]];
            &&& above.repo_name@ == below.repo_name@ || text_before(
                above.repo_name@,
                below.repo_name@,
            )
            &&& above.repo_name@ == below.repo_name@ ==> above.space.name@ == below.space.name@
                || text_before(above.space.name@, below.space.name@)
            &&& above.repo_name@ == below.repo_name@ && above.space.name@ == below.space.name@
                ==> rows[i] < rows[j]
        }),
{
    let keys = name_keys(spaces, scope);
    law_arranged(keys);
    let rows = rows_of(spaces, Seq::empty(), scope);
    super::law_rows_are_spaces(spaces, Seq::empty(), scope);
    if rows.contains(x) {
        let k = choose|k: int| 0 <= k < rows.len() && rows[k] == x;
        assert(keys[rows[k]] is Some);
    }
    assert(keys[rows[i]] is Some && keys[rows[j]] is Some);
    let a = keys[rows[i]]->0;
    let b = keys[rows[j]]->0;
    if a.before(b) && b.before(a) {
        NameRank::before_transitive(a, b, a);
        NameRank::not_before_itself(a);
    }
    law_one_of_two_texts_comes_first(a.repo@, b.repo@);
    law_one_of_two_texts_comes_first(a.name@, b.name@);
}

// ---------------------------------------------------------------------------
// Where the user is
// ---------------------------------------------------------------------------

/// The user is on the row that is on show at the selected place, whatever the
/// filter, the order and the scope, and on none where there is no such row.
pub proof fn law_the_user_is_on_a_row_on_show(list: WorktreesComponent)
    ensures
        list.selected() is Some <==> list.selected_index is Some && list.selected_index->0
            < rows_of(list.spaces@, list.filter.value@, list.repo_scope).len(),
        list.selected() matches Some(entry) ==> entry == list.spaces@[rows_of(
            list.spaces@,
            list.filter.value@,
            list.repo_scope,
        )[list.selected_index->0 as int]],
        list.selected() matches Some(entry) ==> list.spaces@.contains(entry) && (
        list.repo_scope matches Some(id) ==> entry.space.repo@ == id@),
{
    super::law_rows_are_spaces(list.spaces@, list.filter.value@, list.repo_scope);
    if list.selected() is Some {
        let at = list.rows()[list.selected_index->0 as int];
        assert(list.spaces@[at] == list.selected()->0);
    }
}

/// What is on show is the same entries whichever way they came in: the user is
/// moved only where their row is gone.
pub proof fn law_the_user_stays_where_they_were(
    list: WorktreesComponent,
    spaces: Seq<SpaceEntry>,
    next: WorktreesComponent,
    entry: SpaceEntry,
    x: int,
)
    requires
        list.relisted(spaces, next),
        list.selected() == Some(entry),
        rows_of(spaces, list.filter.value@, list.repo_scope).len() <= usize::MAX,
        0 <= x < rows_of(spaces, list.filter.value@, list.repo_scope).len(),
        ({
            let there = spaces[rows_of(spaces, list.filter.value@, list.repo_scope)[x]].space;
            there.path@ == entry.space.path@ && there.backend == entry.space.backend
        }),
    ensures
        next.selected() matches Some(on) && on.space.path@ == entry.space.path@ && on.space.backend
            == entry.space.backend,
        next.filter == list.filter,
        next.focus == list.focus,
        next.repo_scope == list.repo_scope,
{
    let rows = rows_of(spaces, list.filter.value@, list.repo_scope);
    assert(row_key(spaces[rows[x]]) == row_key(entry));
    super::law_the_selected_row_is_kept(
        spaces,
        list.filter.value@,
        list.repo_scope,
        list.selected_index,
        row_key(entry),
    );
}

/// A space that is added is at the end of the list, and where it is on show the
/// user is on it, or on a row of its very path.
pub proof fn law_an_added_space_is_selected(
    list: WorktreesComponent,
    entry: SpaceEntry,
    next: WorktreesComponent,
)
    requires
        list.added(entry, next),
        next.rows().len() <= usize::MAX,
    ensures
        next.spaces@ == list.spaces@.push(entry),
        next.filter == list.filter,
        next.repo_scope == list.repo_scope,
        next.rows().contains(list.spaces@.len() as int) ==> (next.selected() matches Some(on)
            && on.space.path@ == entry.space.path@),
{
    let rows = next.rows();
    let test = at_path(next.spaces@, rows, entry.space.path@);
    lemma_first_where(rows.len(), test);
    if rows.contains(list.spaces@.len() as int) {
        let k = choose|k: int| 0 <= k < rows.len() && rows[k] == list.spaces@.len();
        assert(test(k));
    }
}

/// Going to the space of a branch clears the filter and ends on a row of that
/// name, wherever one is in scope; where there is none at all nothing changes.
pub proof fn law_a_branch_is_gone_to(
    list: WorktreesComponent,
    name: Seq<char>,
    next: WorktreesComponent,
)
    requires
        list.shown(name, next),
        rows_of(list.spaces@, Seq::empty(), list.repo_scope).len() <= usize::MAX,
    ensures
        list.can_show(name) <==> exists|x: int|
            0 <= x < list.spaces@.len() && (#[trigger] list.spaces@[x]).space.name@ == name
                && is_in_scope(list.spaces@[x], list.repo_scope),
        list.can_show(name) ==> (next.selected() matches Some(entry) && entry.space.name@ == name),
        list.can_show(name) ==> next.filter.value@.len() == 0,
        (forall|x: int|
            0 <= x < list.spaces@.len() ==> (#[trigger] list.spaces@[x]).space.name@ != name)
            ==> next == list,
        next.spaces == list.spaces,
        next.repo_scope == list.repo_scope,
{
    let rows = rows_of(list.spaces@, Seq::empty(), list.repo_scope);
    super::law_rows_are_spaces(list.spaces@, Seq::empty(), list.repo_scope);
    let test = at_name(list.spaces@, rows, name);
    lemma_first_where(rows.len(), test);
    assert(list.row_named(name) == first_where(rows.len(), test));
    if list.can_show(name) {
        let i = list.row_named(name)->0;
        assert(test(i));
        let x = rows[i];
        assert(list.spaces@[x].space.name@ == name);
        assert(is_in_scope(list.spaces@[x], list.repo_scope));
        assert(next.filter.value@ =~= Seq::<char>::empty());
    }
    if exists|x: int|
        0 <= x < list.spaces@.len() && (#[trigger] list.spaces@[x]).space.name@ == name
            && is_in_scope(list.spaces@[x], list.repo_scope) {
        let x = choose|x: int|
            0 <= x < list.spaces@.len() && (#[trigger] list.spaces@[x]).space.name@ == name
                && is_in_scope(list.spaces@[x], list.repo_scope);
        assert(rows.contains(x));
        let k = choose|k: int| 0 <= k < rows.len() && rows[k] == x;
        assert(test(k));
    }
}

// ---------------------------------------------------------------------------
// What is acted on
// ---------------------------------------------------------------------------

/// What is deleted is what the user is on: there is a deletion exactly where a row
/// is selected, and it is of a space at the path of that row, whatever the filter,
/// the order and the scope. Where no two spaces share a path it is that very
/// space.
pub proof fn law_a_deletion_is_of_the_selected_row(list: WorktreesComponent)
    ensures
        list.doomed() is Some <==> list.selected() is Some,
        list.doomed() matches Some(space) ==> space.path@ == list.selected()->0.space.path@,
        list.doomed() matches Some(space) ==> exists|x: int|
            0 <= x < list.spaces@.len() && (#[trigger] list.spaces@[x]).space == space,
        list.doomed() is Some && (forall|x: int, y: int|
            0 <= x < y < list.spaces@.len() ==> (#[trigger] list.spaces@[x]).space.path@ != (
            #[trigger] list.spaces@[y]).space.path@) ==> list.doomed() == Some(
            list.selected()->0.space,
        ),
{
    law_the_user_is_on_a_row_on_show(list);
    if let Some(entry) = list.selected() {
        let test = super::is_at(list.spaces@, entry.space.path@);
        lemma_first_where(list.spaces@.len(), test);
        let x = choose|x: int| 0 <= x < list.spaces@.len() && list.spaces@[x] == entry;
        assert(test(x));
        let y = first_where(list.spaces@.len(), test)->0;
        assert(test(y));
        assert(list.spaces@[y].space == list.doomed()->0);
    }
}

/// A space is deleted through the repository it belongs to, as the backend that
/// owns it opened it; without such a repository it is not deleted.
pub proof fn law_a_space_is_deleted_through_its_owner(repos: RepositoriesComponent, space: Space)
    ensures
        repos.owner_of(space) matches Some(repo) ==> repo.id@ == space.repo@ && repo.backend
            == space.backend && repos.repositories@.contains(repo),
        repos.owner_of(space) is Some <==> exists|k: int|
            0 <= k < repos.repositories@.len() && (#[trigger] repos.repositories@[k]).id@
                == space.repo@ && repos.repositories@[k].backend == space.backend,
{
    let all = repos.repositories@;
    let test = crate::components::repositories::is_opened(all, space.repo@, space.backend);
    lemma_first_where(all.len(), test);
    if let Some(k) = first_where(all.len(), test) {
        assert(test(k));
        assert(all[k] == repos.owner_of(space)->0);
    }
    if exists|k: int|
        0 <= k < all.len() && (#[trigger] all[k]).id@ == space.repo@ && all[k].backend
            == space.backend {
        let k = choose|k: int|
            0 <= k < all.len() && (#[trigger] all[k]).id@ == space.repo@ && all[k].backend
                == space.backend;
        assert(test(k));
    }
}

/// A space that is gone takes one row with it, one at its path, and every other
/// row stays in its order.
pub proof fn law_a_deleted_space_takes_one_row(spaces: Seq<SpaceEntry>, path: Seq<char>)
    ensures
        (forall|x: int| 0 <= x < spaces.len() ==> (#[trigger] spaces[x]).space.path@ != path)
            ==> without_path(spaces, path) == spaces,
        (exists|x: int| 0 <= x < spaces.len() && (#[trigger] spaces[x]).space.path@ == path)
            ==> exists|x: int|
            0 <= x < spaces.len() && spaces[x].space.path@ == path && without_path(spaces, path)
                == #[trigger] spaces.remove(x),
{
    let test = super::is_at(spaces, path);
    lemma_first_where(spaces.len(), test);
    if let Some(i) = first_where(spaces.len(), test) {
        assert(test(i));
        assert(without_path(spaces, path) == spaces.remove(i));
    }
    if exists|x: int| 0 <= x < spaces.len() && (#[trigger] spaces[x]).space.path@ == path {
        let x = choose|x: int| 0 <= x < spaces.len() && (#[trigger] spaces[x]).space.path@ == path;
        assert(test(x));
    }
}

/// A batch takes away exactly the rows of the repositories it holds.
pub proof fn law_a_batch_replaces_the_rows_of_its_repositories(
    spaces: Seq<SpaceEntry>,
    entries: Seq<SpaceEntry>,
    entry: SpaceEntry,
)
    ensures
        untouched(spaces, entries).contains(entry) <==> spaces.contains(entry) && !exists|k: int|
            0 <= k < entries.len() && (#[trigger] entries[k]).space.repo@ == entry.space.repo@,
{
    let keep = |e: SpaceEntry| !super::arrives(entries, e.space.repo@);
    super::lemma_filter_keeps(spaces, keep);
    super::lemma_filter_comes_from(spaces, keep);
    let kept = spaces.filter(keep);
    assert(untouched(spaces, entries) == kept);
    if kept.contains(entry) {
        let i = choose|i: int| 0 <= i < kept.len() && kept[i] == entry;
        assert(keep(kept[i]));
        assert(spaces.contains(kept[i]));
    }
    if spaces.contains(entry) && keep(entry) {
        let x = choose|x: int| 0 <= x < spaces.len() && spaces[x] == entry;
        assert(keep(spaces[x]));
    }
}

// ---------------------------------------------------------------------------
// Keys, and an empty pane
// ---------------------------------------------------------------------------

/// Where the row the user was on is gone, they are where they stood, or on the last
/// row; and at the top where they stood nowhere.
pub proof fn law_the_user_stands_still_where_their_row_is_gone(
    spaces: Seq<SpaceEntry>,
    query: Seq<char>,
    scope: Option<RepoId>,
    was: Option<usize>,
    anchor: Option<(Backend, Seq<char>)>,
)
    requires
        0 < rows_of(spaces, query, scope).len() <= usize::MAX,
        anchor matches Some(key) ==> forall|i: int|
            0 <= i < rows_of(spaces, query, scope).len() ==> {
                let space = (#[trigger] spaces[rows_of(spaces, query, scope)[i]]).space;
                space.backend != key.0 || space.path@ != key.1
            },
    ensures
        ({
            let n = rows_of(spaces, query, scope).len();
            let now = restored(spaces, query, scope, was, anchor);
            &&& was matches Some(i) ==> (i < n ==> now == Some(i))
            &&& was matches Some(i) ==> (i >= n ==> now == Some((n - 1) as usize))
            &&& was is None ==> now == Some(0usize)
        }),
{
    let rows = rows_of(spaces, query, scope);
    if let Some(key) = anchor {
        let test = |i: int| row_key(spaces[rows[i]]) == key;
        lemma_first_where(rows.len(), test);
        if let Some(i) = first_where(rows.len(), test) {
            assert(test(i));
            assert(spaces[rows[i]].space.path@ == key.1);
        }
    }
}

/// Moving goes one row, or to an end, and changes nothing else; typing changes the
/// filter at its caret and goes to the first row of what it leaves on show.
pub proof fn law_the_spaces_are_moved_in_and_searched(
    list: WorktreesComponent,
    action: Action,
    next: WorktreesComponent,
)
    requires
        list.wf(),
        list.after(action, next),
        list.rows().len() <= usize::MAX,
    ensures
        next.spaces == list.spaces,
        next.repo_scope == list.repo_scope,
        next.focus == list.focus,
        !(action is InsertChar || action is DeleteChar) ==> next.filter == list.filter,
        list.selected_index matches Some(i) ==> (i < list.rows().len() ==> {
            &&& action is MoveDown && i + 1 < list.rows().len() ==> next.selected_index == Some(
                (i + 1) as usize,
            )
            &&& action is MoveDown && i + 1 == list.rows().len() ==> next.selected_index == Some(i)
            &&& action is MoveUp && i > 0 ==> next.selected_index == Some((i - 1) as usize)
            &&& action is MoveUp && i == 0 ==> next.selected_index == Some(i)
        }),
        action is GoFirst && list.rows().len() > 0 ==> next.selected_index == Some(0usize),
        action is GoLast && list.rows().len() > 0 ==> next.selected_index == Some(
            (list.rows().len() - 1) as usize,
        ),
        action matches Action::InsertChar(c) ==> next.filter.value@ == list.filter.value@.insert(
            list.filter.cursor as int,
            c,
        ) && next.filter.cursor == list.filter.cursor + 1,
        action is DeleteChar && list.filter.cursor > 0 ==> next.filter.value@
            == list.filter.value@.remove(list.filter.cursor - 1) && next.filter.cursor
            == list.filter.cursor - 1,
        (action is InsertChar || action is DeleteChar) && next.rows().len() > 0
            ==> next.selected_index == Some(0usize),
        !(action is MoveDown || action is MoveUp || action is GoFirst || action is GoLast
            || action is InsertChar || action is DeleteChar) ==> next == list,
{
}

/// Only Enter leaves, and only from a row; the keys the list does not know are left
/// to whoever does.
pub proof fn law_only_enter_on_a_row_leaves(list: WorktreesComponent, action: Action)
    ensures
        list.state_after(action) is Exit <==> action is Select && list.selected() is Some,
        list.state_after(action) is NotConsumed <==> !(action is Select || action is MoveDown
            || action is MoveUp || action is GoFirst || action is GoLast || action is InsertChar
            || action is DeleteChar),
{
}

/// An empty pane says why it is empty: what is still running first, then what the
/// user typed, then what a scan came back with.
pub proof fn law_an_empty_pane_says_why(list: WorktreesComponent, state: EmptyState)
    requires
        list.is_empty_because(state),
    ensures
        state is Scanning <==> list.scan is Some,
        state is Filtered <==> list.scan is None && list.filter.value@.len() > 0,
        state is Unknown <==> list.scan is None && list.filter.value@.len() == 0 && !list.scanned,
        state is NoRepositories <==> list.scan is None && list.filter.value@.len() == 0
            && list.scanned && list.repos_seen == 0,
        state is NoSpacesHere <==> list.scan is None && list.filter.value@.len() == 0
            && list.scanned && list.repos_seen > 0 && list.repo_scope is Some,
        state matches EmptyState::NoRepositories { roots, origin } ==> roots@ == list.scan_roots@
            && origin == list.scan_origin,
        state matches EmptyState::NoSpaces { repos } ==> repos == list.repos_seen && repos > 0
            && list.repo_scope is None,
{
}

/// The indicator tells of a scan before anything else.
pub proof fn law_a_scan_is_told_first(list: WorktreesComponent)
    ensures
        list.scan matches Some(found) ==> list.waiting_for() == Some((Activity::Scanning, found)),
        list.scan is None ==> list.waiting_for() == list.busy,
{
}

} // verus!
