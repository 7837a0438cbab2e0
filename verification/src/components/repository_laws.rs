//! What holds of the list of repositories: what is on show, where the user is, and
//! what comes and goes.

use vstd::prelude::*;

use crate::components::list::{first_where, lemma_first_where};
use crate::components::repositories::{
    backends_on, choices, has_id, id_at, is_offer, is_open, is_opened, is_row_of,
    law_a_batch_replaces_its_own, law_a_repository_is_offered_once, law_rows_are_repositories,
    not_in, other_than, offers, repo_keys, repo_labels, repo_line, repo_rows, restored_row,
    stands_for, without, RepositoriesComponent, RepositoriesView,
};
use crate::components::help::HelpEntry;
use crate::components::Action;
use crate::fuzzy::{
    finds, law_a_search_lists_the_best_first, law_a_search_lists_what_every_word_finds, score_keys,
    score_of, scores_of, total_of,
};
use crate::keymap::InputMode;
use crate::order::{
    arranged, law_arranged, law_one_of_two_texts_comes_first, text_before, Rank, TextRank,
};
use crate::text::{decimal_of, padded, words_of};
use crate::screen::{lines_of, Rect};
use crate::theme::{Style, Theme};
use crate::vcs::{Backend, Repo};

verus! {

// ---------------------------------------------------------------------------
// What is on show
// ---------------------------------------------------------------------------

/// Every repository is offered once, through jj where jj has it open.
pub proof fn law_jj_goes_before_git(repos: Seq<Repo>, x: int)
    requires
        0 <= x < repos.len(),
    ensures
        exists|k: int|
            0 <= k < choices(repos).len() && (#[trigger] repos[choices(repos)[k]]).id@
                == repos[x].id@ && (repos[x].backend == Backend::Jj
                ==> repos[choices(repos)[k]].backend == Backend::Jj),
        forall|j: int, k: int|
            0 <= j < choices(repos).len() && 0 <= k < choices(repos).len() && (
            #[trigger] repos[choices(repos)[j]]).id@ == (#[trigger] repos[choices(repos)[k]]).id@
                ==> j == k,
{
    law_a_repository_is_offered_once(repos);
    let offered = choices(repos);
    assert(is_offer(repos, offered));
    assert(offers(repos, offered, x));
    let k = choose|k: int| 0 <= k < offered.len() && #[trigger] stands_for(repos, offered[k], x);
    assert(repos[offered[k]].id@ == repos[x].id@);
    assert forall|j: int, k: int|
        0 <= j < offered.len() && 0 <= k < offered.len() && (#[trigger] repos[offered[j]]).id@ == (
        #[trigger] repos[offered[k]]).id@ implies j == k by {
        if j < k {
            assert(repos[offered[j]].id@ != repos[offered[k]].id@);
        } else if k < j {
            assert(repos[offered[k]].id@ != repos[offered[j]].id@);
        }
    }
}

/// With a filter a repository that is offered is on show exactly where every word
/// of the filter is found in its name.
pub proof fn law_a_repository_is_searched_by_its_name(repos: Seq<Repo>, query: Seq<char>, k: int)
    requires
        query.len() > 0,
        0 <= k < choices(repos).len(),
    ensures
        repo_rows(repos, query).contains(choices(repos)[k]) <==> forall|w: int|
            0 <= w < words_of(query).len() ==> finds(
                #[trigger] words_of(query)[w],
                score_of(words_of(query)[w], repos[choices(repos)[k]].name@),
            ),
{
    let offered = choices(repos);
    let labels = repo_labels(repos, offered);
    let order = arranged(score_keys(query, labels));
    let rows = repo_rows(repos, query);
    law_a_search_lists_what_every_word_finds(query, labels, k);
    law_a_repository_is_offered_once(repos);
    law_arranged(score_keys(query, labels));
    if order.contains(k) {
        let i = choose|i: int| 0 <= i < order.len() && order[i] == k;
        assert(rows[i] == offered[k]);
    }
    if rows.contains(offered[k]) {
        let i = choose|i: int| 0 <= i < rows.len() && rows[i] == offered[k];
        assert(offered[order[i]] == offered[k]);
        if order[i] < k {
            assert(repos[offered[order[i]]].id@ != repos[offered[k]].id@);
        } else if k < order[i] {
            assert(repos[offered[k]].id@ != repos[offered[order[i]]].id@);
        }
        assert(order.contains(k));
    }
}

/// With a filter the repository whose name matches best comes first.
pub proof fn law_the_best_name_comes_first(repos: Seq<Repo>, query: Seq<char>, i: int, j: int)
    requires
        query.len() > 0,
        0 <= i < j < repo_rows(repos, query).len(),
    ensures
        ({
            let rows = repo_rows(repos, query);
            let words = words_of(query);
            let above = total_of(words, scores_of(words, repos[rows[i]].name@));
            let below = total_of(words, scores_of(words, repos[rows[j]].name@));
            &&& above is Some
            &&& below is Some
            &&& above->0 as u128 >= below->0 as u128
        }),
{
    let offered = choices(repos);
    let labels = repo_labels(repos, offered);
    law_arranged(score_keys(query, labels));
    law_a_search_lists_the_best_first(query, labels, i, j);
}

/// Without a filter every repository is on show, by name.
pub proof fn law_repositories_are_listed_by_name(repos: Seq<Repo>, i: int, j: int, x: int)
    requires
        0 <= i < j < repo_rows(repos, Seq::empty()).len(),
        0 <= x < repos.len(),
    ensures
        ({
            let rows = repo_rows(repos, Seq::empty());
            let above = repos[rows[i]].name@;
            let below = repos[rows[j]].name@;
            above == below || text_before(above, below)
        }),
        exists|k: int|
            0 <= k < repo_rows(repos, Seq::empty()).len() && (#[trigger] repos[repo_rows(
                repos,
                Seq::empty(),
            )[k]]).id@ == repos[x].id@,
{
    let offered = choices(repos);
    let keys = repo_keys(repos, offered);
    let rows = repo_rows(repos, Seq::empty());
    law_arranged(keys);
    let order = arranged(keys);
    let a = keys[order[i]]->0;
    let b = keys[order[j]]->0;
    law_one_of_two_texts_comes_first(a.text@, b.text@);
    if a.before(b) && b.before(a) {
        TextRank::before_transitive(a, b, a);
        TextRank::not_before_itself(a);
    }
    law_jj_goes_before_git(repos, x);
    law_rows_are_repositories(repos, Seq::empty());
    let k = choose|k: int| 0 <= k < offered.len() && (#[trigger] repos[offered[k]]).id@
        == repos[x].id@;
    assert(rows.contains(offered[k]));
    let r = choose|r: int| 0 <= r < rows.len() && rows[r] == offered[k];
    assert(repos[rows[r]].id@ == repos[x].id@);
}

// ---------------------------------------------------------------------------
// Where the user is
// ---------------------------------------------------------------------------

/// The user is on the repository that is on show at the selected place, and on none
/// where there is no such row.
pub proof fn law_the_user_is_on_a_repository_on_show(list: RepositoriesComponent)
    ensures
        list.selected() is Some <==> list.selected_index is Some && list.selected_index->0
            < repo_rows(list.repositories@, list.filter.value@).len(),
        list.selected() matches Some(repo) ==> repo == list.repositories@[repo_rows(
            list.repositories@,
            list.filter.value@,
        )[list.selected_index->0 as int]] && list.repositories@.contains(repo),
        list.anchor() is Some <==> list.selected() is Some,
        list.anchor() matches Some(id) ==> id == list.selected()->0.id@,
{
    law_rows_are_repositories(list.repositories@, list.filter.value@);
    if list.selected() is Some {
        let x = list.rows()[list.selected_index->0 as int];
        assert(list.repositories@[x] == list.selected()->0);
    }
}

/// After the repositories changed the user is on the one they were on, if it is
/// still on show; else where they stood, or on the last row; and on none where
/// there is none.
pub proof fn law_the_user_stays_on_their_repository(
    repos: Seq<Repo>,
    query: Seq<char>,
    was: Option<usize>,
    anchor: Option<Seq<char>>,
)
    requires
        repo_rows(repos, query).len() <= usize::MAX,
    ensures
        ({
            let rows = repo_rows(repos, query);
            let there = anchor is Some && exists|i: int|
                0 <= i < rows.len() && (#[trigger] repos[rows[i]]).id@ == anchor->0;
            let now = restored_row(repos, query, was, anchor);
            &&& now is None <==> rows.len() == 0
            &&& now matches Some(i) ==> i < rows.len()
            &&& there ==> now is Some && repos[rows[now->0 as int]].id@ == anchor->0
            &&& !there && rows.len() > 0 && was is Some && was->0 < rows.len() ==> now == was
            &&& !there && rows.len() > 0 && was is Some && was->0 >= rows.len() ==> now == Some(
                (rows.len() - 1) as usize,
            )
            &&& !there && rows.len() > 0 && was is None ==> now == Some(0usize)
        }),
{
    let rows = repo_rows(repos, query);
    if let Some(id) = anchor {
        let test = is_row_of(repos, rows, id);
        lemma_first_where(rows.len(), test);
        assert forall|i: int| 0 <= i < rows.len() implies #[trigger] test(i) == ((
        #[trigger] repos[rows[i]]).id@ == id) by {}
        if exists|i: int| 0 <= i < rows.len() && (#[trigger] repos[rows[i]]).id@ == id {
            let i = choose|i: int| 0 <= i < rows.len() && (#[trigger] repos[rows[i]]).id@ == id;
            assert(test(i));
        }
        if let Some(k) = first_where(rows.len(), test) {
            assert(repos[rows[k]].id@ == id);
        }
    }
}

/// What is done to the selected repository through a backend is done to that
/// repository, as that backend has it open, and to nothing where it has not.
pub proof fn law_a_repository_is_reached_through_its_backend(
    list: RepositoriesComponent,
    backend: Backend,
)
    ensures
        list.selected_through(backend) matches Some(repo) ==> {
            &&& list.selected() is Some
            &&& repo.id@ == list.selected()->0.id@
            &&& repo.backend == backend
            &&& list.repositories@.contains(repo)
        },
        list.selected_through(backend) is Some <==> list.selected() is Some && exists|k: int|
            0 <= k < list.repositories@.len() && (#[trigger] list.repositories@[k]).id@
                == list.selected()->0.id@ && list.repositories@[k].backend == backend,
{
    if let Some(on) = list.selected() {
        let test = is_opened(list.repositories@, on.id@, backend);
        lemma_first_where(list.repositories@.len(), test);
        if exists|k: int|
            0 <= k < list.repositories@.len() && (#[trigger] list.repositories@[k]).id@ == on.id@
                && list.repositories@[k].backend == backend {
            let k = choose|k: int|
                0 <= k < list.repositories@.len() && (#[trigger] list.repositories@[k]).id@
                    == on.id@ && list.repositories@[k].backend == backend;
            assert(test(k));
        }
        if let Some(k) = first_where(list.repositories@.len(), test) {
            assert(list.repositories@[k].id@ == on.id@);
        }
    }
}

/// A repository is found by its id, as whoever opened it first describes it.
pub proof fn law_a_repository_is_found_by_its_id(list: RepositoriesComponent, id: Seq<char>)
    ensures
        list.repository_of(id) is Some <==> exists|k: int|
            0 <= k < list.repositories@.len() && (#[trigger] list.repositories@[k]).id@ == id,
        list.repository_of(id) matches Some(repo) ==> exists|k: int|
            0 <= k < list.repositories@.len() && #[trigger] list.repositories@[k] == repo
                && repo.id@ == id && forall|j: int|
                0 <= j < k ==> (#[trigger] list.repositories@[j]).id@ != id,
{
    let repos = list.repositories@;
    let test = has_id(repos, id);
    lemma_first_where(repos.len(), test);
    if exists|k: int| 0 <= k < repos.len() && (#[trigger] repos[k]).id@ == id {
        let k = choose|k: int| 0 <= k < repos.len() && (#[trigger] repos[k]).id@ == id;
        assert(test(k));
    }
    if let Some(k) = first_where(repos.len(), test) {
        assert(repos[k].id@ == id);
        assert forall|j: int| 0 <= j < k implies (#[trigger] repos[j]).id@ != id by {
            assert(!test(j));
        }
    }
}

/// The backends of a repository are those of every entry of it, in order.
pub proof fn law_every_backend_of_a_repository_counts(repos: Seq<Repo>, more: Repo, id: Seq<char>)
    ensures
        backends_on(Seq::<Repo>::empty(), id) == Seq::<Backend>::empty(),
        more.id@ == id ==> backends_on(repos.push(more), id) == backends_on(repos, id).push(
            more.backend,
        ),
        more.id@ != id ==> backends_on(repos.push(more), id) == backends_on(repos, id),
{
    assert(repos.push(more).drop_last() =~= repos);
}

// ---------------------------------------------------------------------------
// What comes and goes
// ---------------------------------------------------------------------------

proof fn lemma_filter(repos: Seq<Repo>, test: spec_fn(Repo) -> bool, repo: Repo)
    ensures
        repos.filter(test).contains(repo) <==> repos.contains(repo) && test(repo),
    decreases repos.len(),
{
    reveal(Seq::filter);
    if repos.len() > 0 {
        let rest = repos.drop_last();
        lemma_filter(rest, test, repo);
        let kept = rest.filter(test);
        let all = repos.filter(test);
        assert(repos.contains(repo) <==> rest.contains(repo) || repos.last() == repo) by {
            if rest.contains(repo) {
                let i = choose|i: int| 0 <= i < rest.len() && rest[i] == repo;
                assert(repos[i] == repo);
            }
            if repos.last() == repo {
                assert(repos[repos.len() - 1] == repo);
            }
            if repos.contains(repo) {
                let i = choose|i: int| 0 <= i < repos.len() && repos[i] == repo;
                if i < rest.len() {
                    assert(rest[i] == repo);
                }
            }
        }
        if test(repos.last()) {
            assert(all == kept.push(repos.last()));
            assert(all.contains(repo) <==> kept.contains(repo) || repos.last() == repo) by {
                if kept.contains(repo) {
                    let i = choose|i: int| 0 <= i < kept.len() && kept[i] == repo;
                    assert(all[i] == repo);
                }
                if repos.last() == repo {
                    assert(all[kept.len() as int] == repo);
                }
                if all.contains(repo) {
                    let i = choose|i: int| 0 <= i < all.len() && all[i] == repo;
                    if i < kept.len() {
                        assert(kept[i] == repo);
                    }
                }
            }
        }
    }
}

/// Taking a repository out takes out every entry of it, whatever opened it, and
/// none of any other.
pub proof fn law_a_removed_repository_leaves_no_entry(
    state: (Seq<Repo>, Option<usize>),
    query: Seq<char>,
    id: Seq<char>,
    repo: Repo,
)
    ensures
        without(state, query, id).0.contains(repo) <==> state.0.contains(repo) && repo.id@ != id,
{
    lemma_filter(state.0, other_than(id), repo);
}

/// What comes in with a batch is listed, what was there of the same repositories is
/// not, and everything else stays.
pub proof fn law_a_batch_comes_in_whole(
    list: RepositoriesComponent,
    batch: Seq<Repo>,
    next: RepositoriesComponent,
    repo: Repo,
)
    requires
        list.joined(batch, next),
    ensures
        next.repositories@.contains(repo) <==> batch.contains(repo) || (
        list.repositories@.contains(repo) && !is_open(batch, repo.id@)),
        next.filter == list.filter,
        next.focus == list.focus,
{
    let query = list.filter.value@;
    law_a_batch_replaces_its_own(list.state(), query, batch);
    let left = list.repositories@.filter(not_in(batch));
    lemma_filter(list.repositories@, not_in(batch), repo);
    let all = left + batch;
    assert(next.repositories@ == all);
    if left.contains(repo) {
        let i = choose|i: int| 0 <= i < left.len() && left[i] == repo;
        assert(all[i] == repo);
    }
    if batch.contains(repo) {
        let i = choose|i: int| 0 <= i < batch.len() && batch[i] == repo;
        assert(all[left.len() + i] == repo);
    }
    if all.contains(repo) {
        let i = choose|i: int| 0 <= i < all.len() && all[i] == repo;
        if i < left.len() {
            assert(left[i] == repo);
        } else {
            assert(batch[i - left.len()] == repo);
        }
    }
}

// ---------------------------------------------------------------------------
// Keys
// ---------------------------------------------------------------------------

/// Moving goes one row, or to an end, and changes nothing else; typing changes the
/// filter at its caret and goes to the first row of what it leaves on show.
pub proof fn law_the_repositories_are_moved_in_and_searched(
    list: RepositoriesComponent,
    action: Action,
    next: RepositoriesComponent,
)
    requires
        list.wf(),
        list.after(action, next),
        list.rows().len() <= usize::MAX,
    ensures
        next.repositories == list.repositories,
        next.focus == list.focus,
        !(action is InsertChar || action is DeleteChar) ==> next.filter == list.filter,
        list.selected_index matches Some(i) ==> (i < list.rows().len() ==> {
            &&& action is MoveDown && i + 1 < list.rows().len() ==> next.selected_index == Some(
                (i + 1) as usize,
            )
            &&& action is MoveDown && i + 1 == list.rows().len() ==> next.selected_index == Some(i)
            &&& action is MoveUp && i > 0 ==> next.selected_index == Some((i - 1) as usize)
            &&& action is MoveUp && i == 0 ==> next.selected_index == Some(i)
        }),
        action is GoFirst && list.rows().len() > 0 ==> next.selected_index == Some(0usize),
        action is GoLast && list.rows().len() > 0 ==> next.selected_index == Some(
            (list.rows().len() - 1) as usize,
        ),
        action matches Action::InsertChar(c) ==> next.filter.value@ == list.filter.value@.insert(
            list.filter.cursor as int,
            c,
        ) && next.filter.cursor == list.filter.cursor + 1,
        action is DeleteChar && list.filter.cursor > 0 ==> next.filter.value@
            == list.filter.value@.remove(list.filter.cursor - 1) && next.filter.cursor
            == list.filter.cursor - 1,
        (action is InsertChar || action is DeleteChar) && next.rows().len() > 0
            ==> next.selected_index == Some(0usize),
        !(action is MoveDown || action is MoveUp || action is GoFirst || action is GoLast
            || action is InsertChar || action is DeleteChar) ==> next == list,
{
}

/// A row shows which backend has the repository open, and its name; the title
/// counts the rows on show, and names the filter once it has been left.
pub proof fn law_a_row_shows_the_backend_and_the_name(
    list: RepositoriesComponent,
    repo: Repo,
    mode: InputMode,
    theme: Theme,
)
    ensures
        repo_line(repo, theme).len() == 2,
        repo_line(repo, theme)[0].0 == padded(
            if repo.backend == Backend::Jj {
                "jj"@
            } else {
                "git"@
            },
            4,
        ),
        repo_line(repo, theme)[1].0 == repo.name@,
        list.title_runs(mode, theme)[2].0 == " ("@ + decimal_of(
            repo_rows(list.repositories@, list.filter.value@).len(),
        ) + ") "@,
        list.filter.value@.len() > 0 && mode is Normal ==> list.title_runs(mode, theme).last().0
            == "/"@ + list.filter.value@ + " "@,
        list.filter.value@.len() == 0 || mode is Insert ==> list.title_runs(mode, theme).len() == 3,
{
}

/// What a place on show stands for is the repository there.
pub proof fn law_a_row_stands_for_its_repository(
    repos: Seq<Repo>,
    query: Seq<char>,
    row: Option<usize>,
)
    ensures
        id_at(repos, query, row) is Some <==> row is Some && row->0 < repo_rows(repos, query).len(),
        id_at(repos, query, row) matches Some(id) ==> id == repos[repo_rows(
            repos,
            query,
        )[row->0 as int]].id@,
{
}

/// The list is drawn with every row on show, and with the one the user is on marked;
/// its filter is drawn exactly while it is typed into.
pub proof fn law_the_repositories_are_drawn(
    list: RepositoriesComponent,
    view: RepositoriesView,
    rect: Rect,
    mode: InputMode,
    border: Style,
    surface: Style,
    bindings: Seq<HelpEntry>,
    theme: Theme,
    i: int,
)
    requires
        list.is_view(view, rect, mode, border, surface, bindings, theme),
        0 <= i < list.rows().len(),
    ensures
        view.rows@.len() == list.rows().len(),
        view.rows@[i]@ == repo_line(list.repositories@[list.rows()[i]], theme),
        view.selected == list.selected_index,
        view.filter is Some <==> mode is Insert && list.focus is Filter,
        view.filter matches Some(drawn) ==> drawn.line@[1].0 == list.filter.value@,
        view.border == border && view.surface == surface && view.area == rect,
        view.scrolls <==> list.rows().len() > view.list_area.height,
{
    assert(lines_of(view.rows@).len() == view.rows@.len());
    assert(lines_of(view.rows@)[i] == view.rows@[i]@);
}

} // verus!
