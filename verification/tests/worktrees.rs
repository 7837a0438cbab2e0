use shanti::cli::Origin;
use shanti::components::modal::{MIN_HEIGHT, MIN_WIDTH};
use shanti::components::notify::{Notification, Notifications, Severity};
use shanti::components::repositories::RepositoriesComponent;
use shanti::components::worktrees::row::{
    clip_end, clip_start, space_row, RowLabel, RowLayout, SpaceEntry, PREFIX_WIDTH, SEPARATOR,
};
use shanti::components::worktrees::status::{status_zone, Activity, EmptyState};
use shanti::components::worktrees::view::WorktreesView;
use shanti::components::worktrees::WorktreesComponent;
use shanti::components::{Action, EventState};
use shanti::keymap::InputMode;
use shanti::screen::{Line, Rect};
use shanti::theme::{self, Theme};
use shanti::vcs::{Backend, Glyph, RemoteState, Repo, RepoId, Space, SpaceStatus, Tone};

fn unknown() -> SpaceStatus {
    let glyph = Glyph {
        symbol: "?".to_string(),
        tone: Tone::Muted,
        meaning: "not read yet".to_string(),
    };
    SpaceStatus {
        remote: RemoteState::Unknown,
        upstream: glyph.clone(),
        local: glyph,
    }
}

/// A row for the space `name` of a repository rooted at `/repos/<repo>`.
fn entry(repo: &str, backend: Backend, name: &str, path: &str) -> SpaceEntry {
    let root = format!("/repos/{repo}");
    SpaceEntry {
        repo_name: repo.to_string(),
        repo_path: root.clone(),
        space: Space {
            repo: RepoId::from_path(&root),
            backend,
            name: name.to_string(),
            path: path.to_string(),
            status: unknown(),
            tip: None,
        },
    }
}

fn labels(component: &WorktreesComponent) -> Vec<String> {
    component
        .filtered_items()
        .iter()
        .map(|&i| component.spaces[i].label())
        .collect()
}

#[test]
fn a_repository_with_no_spaces_left_loses_its_rows() {
    let mut component = WorktreesComponent::new(vec![
        entry("alpha", Backend::Git, "one", "/s/alpha/one"),
        entry("beta", Backend::Git, "two", "/s/beta/two"),
    ]);
    let alpha = RepoId::from_path("/repos/alpha");

    component.replace_spaces_of(&alpha, Vec::new());

    let left: Vec<&str> = component
        .spaces
        .iter()
        .map(|e| e.repo_name.as_str())
        .collect();
    assert_eq!(left, ["beta"], "the emptied repository kept its rows");

    component.replace_spaces_of(
        &alpha,
        vec![entry("alpha", Backend::Git, "three", "/s/alpha/three")],
    );
    assert_eq!(component.spaces.len(), 2, "the rows were doubled");
}

#[test]
fn a_scan_speaks_over_the_work_running_beneath_it() {
    let mut component = WorktreesComponent::new(Vec::new());
    component.set_busy(Some((Activity::Refreshing, 3)));
    assert_eq!(component.progress(), Some((Activity::Refreshing, 3)));

    component.set_scan(1, true);
    assert_eq!(
        component.progress(),
        Some((Activity::Scanning, 1)),
        "the scan must win while it is running"
    );

    component.set_scan(1, false);
    assert_eq!(component.progress(), Some((Activity::Refreshing, 3)));

    component.set_busy(None);
    assert_eq!(
        component.progress(),
        None,
        "the indicator outlived the work"
    );
}

#[test]
fn a_repositorys_default_space_is_labelled_by_the_repository_alone() {
    let row = entry("shanti", Backend::Jj, "default", "/repos/shanti");
    assert_eq!(row.row_label().space, None);
    assert_eq!(row.label(), "shanti");
}

#[test]
fn a_space_the_user_created_is_still_named() {
    let row = entry("shanti", Backend::Jj, "feat-x", "/spaces/shanti/feat-x");
    assert_eq!(row.row_label().space.as_deref(), Some("feat-x"));
    assert_eq!(row.label(), "shanti / feat-x");
}

#[test]
fn the_default_space_is_recognised_by_path_not_by_the_name_default() {
    let renamed = entry("shanti", Backend::Jj, "default", "/spaces/shanti/default");
    assert_eq!(renamed.label(), "shanti / default");

    let working_copy = entry("shanti", Backend::Jj, "main-copy", "/repos/shanti");
    assert_eq!(working_copy.label(), "shanti");
}

#[test]
fn a_git_linked_worktree_keeps_its_name() {
    let row = entry("shanti", Backend::Git, "feat-x", "/spaces/shanti/feat-x");
    assert_eq!(row.label(), "shanti / feat-x");
}

#[test]
fn a_colocated_repository_suppresses_only_its_default_row() {
    let component = WorktreesComponent::new(vec![
        entry("shanti", Backend::Jj, "default", "/repos/shanti"),
        entry("shanti", Backend::Git, "feat-x", "/spaces/shanti/feat-x"),
    ]);
    assert_eq!(labels(&component), vec!["shanti", "shanti / feat-x"]);
}

fn render(entry: &SpaceEntry, cols: &RowLayout) -> String {
    space_row(
        &entry.space,
        &entry.row_label(),
        cols,
        &Theme::tokyo_night(),
    )
    .text()
}

fn layout(rows: &[SpaceEntry], width: u16) -> RowLayout {
    let labels: Vec<RowLabel> = rows.iter().map(|entry| entry.row_label()).collect();
    RowLayout::measure(&labels, width)
}

/// How many cells a text takes: every character of these tests takes one.
fn cells(text: &str) -> usize {
    text.chars().count()
}

fn spine(row: &str) -> Option<usize> {
    row.find(SEPARATOR).map(|at| cells(&row[..at]))
}

#[test]
fn the_separator_falls_in_one_column_on_every_row() {
    let rows = vec![
        entry("a", Backend::Git, "one", "/spaces/a/one"),
        entry("much-longer-name", Backend::Jj, "two", "/spaces/m/two"),
    ];
    let cols = layout(&rows, 80);
    let first = spine(&render(&rows[0], &cols));
    let second = spine(&render(&rows[1], &cols));
    assert!(first.is_some(), "the separator is missing");
    assert_eq!(first, second, "the rows do not line up");
}

#[test]
fn a_default_row_ends_where_the_separator_would_start() {
    let rows = vec![
        entry("alpha", Backend::Jj, "default", "/repos/alpha"),
        entry("beta", Backend::Git, "feat-x", "/spaces/beta/feat-x"),
    ];
    let cols = layout(&rows, 80);
    let default_row = render(&rows[0], &cols);
    let named_row = render(&rows[1], &cols);
    assert!(
        default_row.ends_with("alpha"),
        "the default row should say the repository and stop: {default_row:?}"
    );
    assert_eq!(
        cells(&default_row),
        spine(&named_row).expect("a separator"),
        "the default row does not end on the spine"
    );
}

#[test]
fn a_row_names_its_backend_before_its_label() {
    let rows = vec![entry(
        "alpha",
        Backend::Git,
        "feat-x",
        "/spaces/alpha/feat-x",
    )];
    let row = render(&rows[0], &layout(&rows, 80));
    let (before, after) = row.split_once("alpha /").expect("the label is intact");
    assert!(
        before.contains("git"),
        "the backend tag is missing: {row:?}"
    );
    assert_eq!(after.trim(), "feat-x");
}

#[test]
fn a_short_repository_name_is_pushed_up_against_the_separator() {
    let rows = vec![
        entry("a", Backend::Git, "one", "/spaces/a/one"),
        entry("bbbb", Backend::Git, "two", "/spaces/b/two"),
    ];
    let cols = layout(&rows, 80);
    assert_eq!(cols.repo, 4, "the column should fit the longest name");
    let short = render(&rows[0], &cols);
    assert!(
        short.contains("   a / one"),
        "the short name should be right-aligned: {short:?}"
    );
}

#[test]
fn columns_take_only_what_the_names_need() {
    let rows = vec![entry("alpha", Backend::Git, "feature-one", "/s/a/one")];
    let cols = layout(&rows, 80);
    assert_eq!(cols.repo, "alpha".len());
    assert_eq!(
        cols.space,
        80 - PREFIX_WIDTH - cells(SEPARATOR) - cols.repo
    );
}

#[test]
fn at_the_minimum_width_one_long_name_cannot_crowd_the_other_out() {
    let width = MIN_WIDTH - 2;
    let rows = vec![entry(
        "an-extremely-long-repository-name",
        Backend::Git,
        "an-extremely-long-space-name",
        "/s/x/y",
    )];
    let cols = layout(&rows, width);
    let avail = width as usize - PREFIX_WIDTH - cells(SEPARATOR);
    assert_eq!(
        cols.repo,
        avail / 2,
        "the repository column took more than half"
    );
    assert!(cols.space >= avail / 2, "the space column was crowded out");

    let row = render(&rows[0], &cols);
    assert_eq!(
        row.matches('\u{2026}').count(),
        2,
        "both names should be marked as cut: {row:?}"
    );
    assert!(
        cells(&row) <= width as usize,
        "the row overflows the pane: {row:?}"
    );
}

#[test]
fn a_clipped_name_says_which_end_was_cut() {
    assert_eq!(clip_start("abcdefgh", 4), "\u{2026}fgh");
    assert_eq!(clip_end("abcdefgh", 4), "abc\u{2026}");
    assert_eq!(clip_end("abc", 4), "abc", "a name that fits is left alone");
}

/// A wide character takes two cells, so fewer of them fit.
#[test]
fn a_wide_name_is_cut_by_cells() {
    assert_eq!(clip_end("日本語", 4), "日\u{2026}");
    assert_eq!(clip_start("日本語", 4), "\u{2026}語");
    assert_eq!(clip_end("日本", 4), "日本");
}

#[test]
fn no_room_for_a_name_yields_nothing() {
    assert_eq!(clip_end("abc", 0), "");
    assert_eq!(clip_start("abc", 0), "");
    assert_eq!(clip_end("", 0), "");
    assert_eq!(clip_end("abc", 1), "\u{2026}");
    assert_eq!(clip_start("abc", 1), "\u{2026}");
}

#[test]
fn a_list_of_only_default_spaces_is_left_aligned() {
    let rows = vec![
        entry("alpha", Backend::Jj, "default", "/repos/alpha"),
        entry("b", Backend::Jj, "main", "/repos/b"),
    ];
    let cols = layout(&rows, 80);
    assert_eq!(cols.space, 0, "there is no second column to line up");
    for row in &rows {
        let text = render(row, &cols);
        assert!(
            text.ends_with(&row.repo_name),
            "the name should not be padded: {text:?}"
        );
    }
}

#[test]
fn the_filter_matches_the_label_not_the_padding() {
    let rows = vec![entry("a", Backend::Git, "one", "/spaces/a/one")];
    let padded = render(&rows[0], &layout(&rows, 80));
    assert_eq!(rows[0].label(), "a / one");
    assert!(padded.contains("a / one"), "{padded:?}");
    assert_ne!(padded.trim(), rows[0].label(), "the row is padded");
}

#[test]
fn an_empty_list_says_which_kind_of_empty_it_is() {
    let mut component = WorktreesComponent::new(Vec::new());
    assert_eq!(
        component.empty_state(),
        EmptyState::Unknown,
        "nothing has been scanned, so nothing may be claimed"
    );

    component.set_scan(0, true);
    assert_eq!(component.empty_state(), EmptyState::Scanning);

    component.set_scan_roots(vec!["/repos".to_string()], Origin::CommandLine);
    component.set_scan(0, false);
    assert_eq!(
        component.empty_state(),
        EmptyState::NoRepositories {
            roots: vec!["/repos".to_string()],
            origin: Origin::CommandLine,
        }
    );

    component.set_scan(3, true);
    component.set_scan(3, false);
    assert_eq!(component.empty_state(), EmptyState::NoSpaces { repos: 3 });
}

#[test]
fn a_filter_that_matches_nothing_is_not_reported_as_a_missing_repository() {
    let mut component =
        WorktreesComponent::new(vec![entry("alpha", Backend::Git, "one", "/s/a/one")]);
    component.set_scan(1, true);
    component.set_scan(1, false);
    type_filter(&mut component, "zzz");
    assert_eq!(component.empty_state(), EmptyState::Filtered);
}

fn all_text(lines: &[Line]) -> String {
    lines
        .iter()
        .map(|line| line.text())
        .collect::<Vec<_>>()
        .join("\n")
}

#[test]
fn each_empty_state_says_what_to_do_next() {
    let text = |state: EmptyState| all_text(&state.lines(&Theme::tokyo_night()));

    let no_repos = text(EmptyState::NoRepositories {
        roots: vec!["/home/me/src".to_string(), "/work".to_string()],
        origin: Origin::Environment,
    });
    assert!(no_repos.contains("no repositories found"), "{no_repos}");
    assert!(no_repos.contains("from the environment"), "{no_repos}");
    assert!(no_repos.contains("/home/me/src"), "{no_repos}");
    assert!(no_repos.contains("/work"), "{no_repos}");

    let no_spaces = text(EmptyState::NoSpaces { repos: 1 });
    assert!(no_spaces.contains("no spaces yet"), "{no_spaces}");
    assert!(no_spaces.contains("1 repository,"), "{no_spaces}");
    assert!(no_spaces.contains("press n to create one"), "{no_spaces}");

    assert!(text(EmptyState::NoSpaces { repos: 2 }).contains("2 repositories,"));
}

#[test]
fn every_empty_notice_fits_the_minimum_size() {
    let inner = (MIN_WIDTH - 2) as usize;
    for state in [
        EmptyState::Scanning,
        EmptyState::Filtered,
        EmptyState::Unknown,
        EmptyState::NoRepositories {
            roots: vec!["~/src".to_string()],
            origin: Origin::Default,
        },
        EmptyState::NoSpaces { repos: 12 },
        EmptyState::NoSpacesHere,
    ] {
        let lines = state.lines(&Theme::tokyo_night());
        assert!(
            lines.len() <= (MIN_HEIGHT - 2) as usize,
            "{state:?} is taller than the pane"
        );
        for line in lines {
            assert!(
                cells(&line.text()) <= inner,
                "{state:?} has a line wider than {inner} cells: {line:?}"
            );
        }
    }
}

fn type_filter(component: &mut WorktreesComponent, query: &str) -> Vec<String> {
    for c in query.chars() {
        component.handle_action(Action::InsertChar(c));
    }
    labels(component)
}

#[test]
fn a_suppressed_name_cannot_be_filtered_for() {
    let rows = vec![
        entry("shanti", Backend::Jj, "default", "/repos/shanti"),
        entry("eclair", Backend::Jj, "default", "/repos/eclair"),
        entry("eclair", Backend::Jj, "feat-default", "/spaces/eclair/d"),
    ];

    let mut component = WorktreesComponent::new(rows);
    assert_eq!(
        type_filter(&mut component, "default"),
        vec!["eclair / feat-default"]
    );
}

#[test]
fn a_default_row_is_still_found_by_its_repository_name() {
    let rows = vec![
        entry("shanti", Backend::Jj, "default", "/repos/shanti"),
        entry("eclair", Backend::Jj, "default", "/repos/eclair"),
    ];
    let mut component = WorktreesComponent::new(rows);
    assert_eq!(type_filter(&mut component, "shanti"), vec!["shanti"]);
}

#[test]
fn replacing_the_rows_keeps_the_filter_and_the_selected_row() {
    let mut component = WorktreesComponent::new(vec![
        entry("alpha", Backend::Git, "feature-one", "/spaces/alpha/one"),
        entry("beta", Backend::Git, "feature-two", "/spaces/beta/two"),
    ]);
    type_filter(&mut component, "feature");
    component.handle_action(Action::MoveDown);
    let before = component.selected_space().expect("a row is selected").path;

    component.set_spaces(vec![
        entry("alpha", Backend::Git, "feature-one", "/spaces/alpha/one"),
        entry("beta", Backend::Git, "feature-two", "/spaces/beta/two"),
        entry(
            "gamma",
            Backend::Git,
            "feature-three",
            "/spaces/gamma/three",
        ),
    ]);

    assert_eq!(component.filter.value, "feature", "the filter was lost");
    assert_eq!(
        component.filtered_items().len(),
        3,
        "the new row is missing"
    );
    assert_eq!(
        component.selected_space().expect("still selected").path,
        before,
        "the user was moved off their row"
    );
}

#[test]
fn a_row_that_vanished_leaves_the_cursor_in_place() {
    let mut component = WorktreesComponent::new(vec![
        entry("alpha", Backend::Git, "one", "/spaces/alpha/one"),
        entry("beta", Backend::Git, "two", "/spaces/beta/two"),
        entry("gamma", Backend::Git, "three", "/spaces/gamma/three"),
    ]);
    component.handle_action(Action::MoveDown);

    component.set_spaces(vec![
        entry("alpha", Backend::Git, "one", "/spaces/alpha/one"),
        entry("gamma", Backend::Git, "three", "/spaces/gamma/three"),
    ]);

    assert_eq!(
        component.selected_space().expect("still selected").name,
        "three",
        "the cursor should hold its position, not reset"
    );
}

#[test]
fn a_batch_replaces_the_rows_of_its_own_repositories_only() {
    let mut component = WorktreesComponent::new(vec![entry(
        "alpha",
        Backend::Git,
        "one",
        "/spaces/alpha/one",
    )]);

    component.extend(vec![entry("beta", Backend::Git, "two", "/spaces/beta/two")]);
    assert_eq!(component.filtered_items().len(), 2);

    component.extend(vec![
        entry("alpha", Backend::Git, "one", "/spaces/alpha/one"),
        entry("alpha", Backend::Git, "three", "/spaces/alpha/three"),
    ]);
    assert_eq!(
        labels(&component),
        vec!["alpha / one", "alpha / three", "beta / two"],
        "a repository was listed twice"
    );
}

fn notice(severity: Severity, text: &str) -> Notification {
    let mut notifications = Notifications::default();
    match severity {
        Severity::Info => notifications.info(text, 0),
        Severity::Warning => notifications.warn(text, 0),
        Severity::Error => notifications.error(text, 0),
    }
    notifications.current().expect("just raised").clone()
}

#[test]
fn a_message_never_takes_the_mode_indicators_place() {
    let notice = notice(Severity::Error, "Hook failed for feature-two");
    let (line, _) = status_zone(InputMode::Insert, 120, Some(&notice), &Theme::tokyo_night());
    let text = line.text();

    assert!(
        text.contains("INSERT"),
        "the mode was displaced by:\n{text}"
    );
    assert!(
        text.contains("Hook failed"),
        "the message is missing:\n{text}"
    );
}

#[test]
fn the_zone_never_takes_more_than_half_the_border() {
    let notice = notice(
        Severity::Error,
        "Hook failed for feature-two: exit status 3 — the worktree was created and is intact",
    );
    for width in [40, 60, 80, 140, 200] {
        let (line, claimed) =
            status_zone(InputMode::Normal, width, Some(&notice), &Theme::tokyo_night());
        assert!(
            claimed <= width / 2,
            "the status zone claimed {claimed} of {width} columns"
        );
        assert_eq!(
            claimed as usize,
            line.spans
                .iter()
                .map(|s| s.content.chars().count())
                .sum::<usize>(),
            "the zone claimed a width it does not draw at {width} columns"
        );
    }
}

#[test]
fn each_severity_is_drawn_in_its_own_colour() {
    let palette = Theme::tokyo_night();
    let colour = |severity| {
        let notice = notice(severity, "something happened");
        let (line, _) = status_zone(InputMode::Normal, 140, Some(&notice), &palette);
        line.spans.last().expect("the message span").style.fg
    };

    assert_eq!(colour(Severity::Info), Some(theme::info(&palette)));
    assert_eq!(colour(Severity::Warning), Some(theme::warning(&palette)));
    assert_eq!(colour(Severity::Error), Some(theme::danger(&palette)));
}

#[test]
fn a_terminal_too_narrow_for_a_message_keeps_the_mode_instead() {
    let notice = notice(Severity::Error, "could not delete the worktree");
    let (line, claimed) = status_zone(
        InputMode::Normal,
        MIN_WIDTH,
        Some(&notice),
        &Theme::tokyo_night(),
    );
    assert_eq!(line.text(), " NORMAL ");
    assert_eq!(claimed, 8);
}

#[test]
fn enter_leaves_with_the_selected_space() {
    let mut component =
        WorktreesComponent::new(vec![entry("alpha", Backend::Git, "one", "/s/alpha/one")]);
    assert_eq!(component.handle_action(Action::Select), EventState::Exit);
    assert_eq!(
        component.selected_worktree_path().as_deref(),
        Some("/s/alpha/one")
    );

    let mut empty = WorktreesComponent::new(Vec::new());
    assert_eq!(empty.handle_action(Action::Select), EventState::Consumed);
}

#[test]
fn a_deletion_needs_the_backend_that_owns_the_space() {
    let component =
        WorktreesComponent::new(vec![entry("alpha", Backend::Git, "one", "/s/alpha/one")]);
    let closed = RepositoriesComponent::new(Vec::new());
    assert_eq!(
        component.delete_selected_space(&closed),
        Err("no open repository for the space \"one\"; it cannot be deleted".to_string())
    );

    let open =
        RepositoriesComponent::new(vec![Repo::new("alpha", "/repos/alpha", Backend::Git)]);
    let plan = component
        .delete_selected_space(&open)
        .expect("the owner is open")
        .expect("a space is selected");
    assert_eq!(plan.space.name, "one");
    assert_eq!(plan.repo.name, "alpha");

    let nothing = WorktreesComponent::new(Vec::new());
    assert_eq!(nothing.delete_selected_space(&open), Ok(None));
}

#[test]
fn a_created_space_is_selected_and_a_deleted_one_goes() {
    let mut component =
        WorktreesComponent::new(vec![entry("alpha", Backend::Git, "one", "/s/alpha/one")]);
    component.add(entry("beta", Backend::Git, "two", "/s/beta/two"));
    assert_eq!(component.selected_space().map(|s| s.name), Some("two".to_string()));
    component.forget_space("/s/beta/two");
    assert_eq!(labels(&component), vec!["alpha / one"]);
}

#[test]
fn a_branch_is_selected_whatever_the_filter() {
    let mut component = WorktreesComponent::new(vec![
        entry("alpha", Backend::Git, "one", "/s/alpha/one"),
        entry("beta", Backend::Git, "two", "/s/beta/two"),
    ]);
    type_filter(&mut component, "alpha");
    assert!(component.select_worktree_by_branch("two"));
    assert_eq!(component.filter.value, "");
    assert_eq!(component.selected_space().map(|s| s.name), Some("two".to_string()));
    assert!(!component.select_worktree_by_branch("three"));
}

#[test]
fn a_list_can_be_narrowed_to_one_repository() {
    let mut component = WorktreesComponent::new(vec![
        entry("alpha", Backend::Git, "one", "/s/alpha/one"),
        entry("beta", Backend::Git, "two", "/s/beta/two"),
    ]);
    assert!(component.set_repo_scope(Some(RepoId::from_path("/repos/beta"))));
    assert!(!component.set_repo_scope(Some(RepoId::from_path("/repos/beta"))));
    assert_eq!(labels(&component), vec!["beta / two"]);
    assert!(component.set_repo_scope(None));
    assert_eq!(labels(&component).len(), 2);
}

#[test]
fn the_pane_is_drawn_or_says_how_much_room_it_needs() {
    let component =
        WorktreesComponent::new(vec![entry("alpha", Backend::Git, "one", "/s/alpha/one")]);
    let palette = Theme::tokyo_night();
    let small = Rect {
        x: 0,
        y: 0,
        width: 39,
        height: 9,
    };
    match component.draw(small, InputMode::Normal, true, false, None, &palette) {
        WorktreesView::TooSmall { lines, .. } => {
            assert_eq!(
                all_text(&lines),
                "Terminal too small\nNeed 40x10\nHave 39x9"
            );
        }
        WorktreesView::Pane(_) => panic!("drawn below the floor"),
    }

    let roomy = Rect {
        x: 0,
        y: 0,
        width: 80,
        height: 20,
    };
    match component.draw(roomy, InputMode::Normal, true, false, None, &palette) {
        WorktreesView::TooSmall { .. } => panic!("there was room"),
        WorktreesView::Pane(pane) => {
            assert_eq!(pane.title.text(), " Worktrees (1/1) ");
            assert_eq!(pane.rows.len(), 1);
            assert!(pane.rows[0].text().contains("alpha / one"));
            assert_eq!(pane.selected, Some(0));
            assert_eq!(pane.empty, None);
            assert!(!pane.scrolls);
        }
    }
}

#[test]
fn the_title_names_the_work_in_progress() {
    let mut component = WorktreesComponent::new(Vec::new());
    component.set_scan(2, true);
    let roomy = Rect {
        x: 0,
        y: 0,
        width: 80,
        height: 20,
    };
    let palette = Theme::tokyo_night();
    let first = match component.draw(roomy, InputMode::Normal, true, false, None, &palette) {
        WorktreesView::Pane(pane) => pane.title.text(),
        WorktreesView::TooSmall { .. } => panic!("there was room"),
    };
    assert!(first.contains("scanning\u{2026} 2 repos"), "{first}");
    component.tick();
    match component.draw(roomy, InputMode::Normal, true, false, None, &palette) {
        WorktreesView::Pane(pane) => assert_ne!(pane.title.text(), first, "the spinner must turn"),
        WorktreesView::TooSmall { .. } => panic!("there was room"),
    }
}

#[test]
fn the_first_row_on_show_can_be_selected() {
    let mut component = WorktreesComponent::new(vec![
        entry("beta", Backend::Git, "two", "/s/beta/two"),
        entry("alpha", Backend::Git, "one", "/s/alpha/one"),
    ]);
    component.handle_action(Action::GoLast);
    component.select_first();
    assert_eq!(
        component.selected_worktree_path().as_deref(),
        Some("/s/alpha/one")
    );
}
