use shanti::components::confirm::{Answer, ConfirmComponent, Work, OVERRIDE_KEY};
use shanti::components::create_worktree::{
    capitalised, is_valid_branch_name, CreateWorktreeComponent, Naming,
};
use shanti::components::detail::{self, truncate_left, HEIGHT};
use shanti::components::help::{footer_entries, worktrees_bindings, HelpComponent, KEYS_SECTION};
use shanti::components::modal::{
    fits, gutter, place_cursor, popup_area, Extent, MIN_HEIGHT, MIN_WIDTH,
};
use shanti::components::pr_worktree::{Flow, PrWorktreeComponent};
use shanti::components::prompt::footer;
use shanti::components::recent_spaces::{Jump, RecentSpacesModal};
use shanti::components::select_directory::{Choice, CloneRequest, SelectDirectoryComponent};
use shanti::components::theme_picker::{Pick, ThemeModal};
use shanti::components::worktrees::row::SpaceEntry;
use shanti::components::worktrees::WorktreesComponent;
use shanti::components::{Action, EventState};
use shanti::github::{PrInfo, PrUrl};
use shanti::keymap::InputMode;
use shanti::screen::{Line, Rect};
use shanti::theme::scheme::{all, find};
use shanti::theme::Theme;
use shanti::vcs::{Backend, Glyph, RemoteState, RepoId, Space, SpaceStatus, SpaceTip, Tone};

const SIZES: [(u16, u16); 8] = [
    (1, 1),
    (3, 2),
    (10, 4),
    (39, 9),
    (40, 10),
    (60, 16),
    (140, 50),
    (400, 120),
];

fn frame(width: u16, height: u16) -> Rect {
    Rect {
        x: 0,
        y: 0,
        width,
        height,
    }
}

fn text(lines: &[Line]) -> String {
    lines
        .iter()
        .map(|line| line.text())
        .collect::<Vec<_>>()
        .join("\n")
}

fn request() -> CloneRequest {
    CloneRequest {
        url: PrUrl {
            owner: "acme".to_string(),
            repo: "widget".to_string(),
            number: 7,
        },
        info: PrInfo {
            branch_name: "feature".to_string(),
            is_merged: false,
        },
        flow: Flow {
            auto: false,
            typed: String::new(),
        },
    }
}

// --- Geometry ---------------------------------------------------------------

#[test]
fn a_popup_never_escapes_the_frame_at_any_size() {
    let extents = [
        (Extent::share(60, 34, 100), Extent::fixed(22)),
        (Extent::share(70, 38, 110), Extent::fixed(9)),
        (Extent::share(50, 34, 80), Extent::share(50, 8, 30)),
        (Extent::fixed(500), Extent::fixed(500)),
    ];
    for (w, h) in extents {
        for (width, height) in SIZES {
            let full = frame(width, height);
            let area = popup_area(full, w, h);
            if !fits(full) {
                assert!(
                    area.is_empty(),
                    "below the floor a popup must not draw at all, got {area:?} in {full:?}"
                );
                continue;
            }
            assert!(
                area.right() <= full.right() && area.bottom() <= full.bottom(),
                "popup {area:?} escaped the frame {full:?}"
            );
        }
    }
}

#[test]
fn a_popup_stands_in_the_middle() {
    assert_eq!(
        popup_area(frame(100, 40), Extent::fixed(60), Extent::fixed(10)),
        Rect {
            x: 20,
            y: 15,
            width: 60,
            height: 10
        }
    );
    assert_eq!(Extent::share(60, 34, 100).resolve(140), 84);
    assert_eq!(Extent::share(60, 34, 100).resolve(40), 34);
    assert_eq!(Extent::share(60, 34, 100).resolve(400), 100);
    assert_eq!(Extent::share(200, 0, 65535).resolve(40000), 40000);
    assert_eq!(Extent::fixed(500).resolve(120), 120);
}

#[test]
fn every_popup_draws_at_every_size() {
    let theme = Theme::tokyo_night();
    for (width, height) in SIZES {
        let full = frame(width, height);

        let confirm = ConfirmComponent::new(
            "Delete Space".into(),
            "This cannot be undone.".into(),
            "acme/widget / feature-one".into(),
            Work::DeleteSpace,
        )
        .at_risk(
            vec![
                "3 uncommitted files (modified, staged or untracked)".into(),
                "a branch that was never pushed".into(),
            ],
            Some("Deleting it cannot be undone.".into()),
        )
        .removing(
            vec![
                "the branch it has checked out".into(),
                "the worktree directory and its registration".into(),
            ],
            Some("Commits already pushed are kept.".into()),
        )
        .require_override();
        let area = confirm.area(full, &theme);
        assert_eq!(confirm.draw(area, &theme).is_some(), fits(full));

        let mut create = CreateWorktreeComponent::new("acme-widget".into(), Backend::Git, true);
        create.base_branch_hint = Some("Will be created from main (default branch)".into());
        assert_eq!(
            create.draw(create.area(full), &theme).is_some(),
            fits(full)
        );

        let mut pr = PrWorktreeComponent::new(true);
        pr.set_error("GitHub auth failed".into());
        let area = pr.area(full);
        assert_eq!(pr.draw(area, &theme).is_some(), fits(full));

        let picker = SelectDirectoryComponent::new(
            (0..12).map(|i| format!("/home/dev/src/dir-{i}")).collect(),
            request(),
        );
        assert_eq!(
            picker.draw(picker.area(full), &theme).is_some(),
            fits(full)
        );

        let mut help = HelpComponent::new(worktrees_bindings());
        let area = help.area(full);
        assert_eq!(help.draw(area, &theme).is_some(), fits(full));

        let spaces = WorktreesComponent::new(Vec::new());
        spaces.draw(full, InputMode::Insert, true, false, None, &theme);
    }
}

#[test]
fn the_help_popup_scrolls_instead_of_overflowing() {
    let theme = Theme::tokyo_night();
    let mut help = HelpComponent::new(worktrees_bindings());
    let (_, wanted) = help.dimensions();
    let short = (60u16, 20u16);
    assert!(
        wanted > short.1,
        "the table should be taller than the frame under test"
    );

    let full = frame(short.0, short.1);
    let area = help.area(full);
    help.draw(area, &theme);
    assert!(area.height <= full.height, "help must not exceed the frame");
    assert_eq!(full.height, short.1);

    assert_eq!(help.handle_action(Action::MoveUp), EventState::Consumed);
    assert_eq!(help.handle_action(Action::GoLast), EventState::Consumed);
    let bottom = help.scroll;
    assert!(bottom > 0, "a clipped table must be scrollable");
    help.handle_action(Action::MoveDown);
    assert_eq!(help.scroll, bottom, "scrolling stops at the last row");
}

#[test]
fn drawing_into_an_empty_or_tiny_rect_is_a_no_op() {
    for (width, height) in SIZES {
        let full = frame(width, height);
        let area = popup_area(full, Extent::share(60, 34, 100), Extent::fixed(22));
        let caret = place_cursor(area, u16::MAX, u16::MAX);
        match caret {
            Some((x, y)) => assert!(x < area.right() && y < area.bottom()),
            None => assert!(area.is_empty()),
        }
        assert!(2 * gutter(area.width) <= area.width);
    }
}

#[test]
fn a_footer_drops_what_does_not_fit() {
    let theme = Theme::tokyo_night();
    let prompt = CreateWorktreeComponent::new("shanti".into(), Backend::Git, true);
    let entries = footer_entries(&prompt.help(), KEYS_SECTION, &theme);
    let wide = footer(&entries, 80, &theme).text();
    let narrow = footer(&entries, 30, &theme).text();
    assert!(wide.contains("create") && wide.contains("cancel"), "{wide}");
    assert!(narrow.chars().count() <= 30, "{narrow}");
    assert!(narrow.contains("cancel"), "the way out comes first: {narrow}");
    assert!(narrow.len() < wide.len());
}

// --- The dialog -------------------------------------------------------------

fn dialog() -> ConfirmComponent {
    ConfirmComponent::new(
        "Delete worktree".into(),
        "Delete this worktree?".into(),
        "/spaces/shanti/feature".into(),
        Work::DeleteSpace,
    )
}

#[test]
fn an_unguarded_dialog_takes_enter() {
    let mut confirm = dialog();
    assert_eq!(confirm.handle(Action::Select), Answer::Run(Work::DeleteSpace));
    assert_eq!(confirm.handle(Action::Select), Answer::Close, "only once");
}

#[test]
fn a_guarded_dialog_does_not_take_enter() {
    let mut guarded = dialog().require_override();
    assert_eq!(guarded.mode(), InputMode::Insert);
    assert_eq!(guarded.handle(Action::Select), Answer::Consumed);
    assert_eq!(guarded.handle(Action::InsertChar('x')), Answer::Consumed);
    assert_eq!(
        guarded.handle(Action::InsertChar(OVERRIDE_KEY)),
        Answer::Run(Work::DeleteSpace)
    );
}

#[test]
fn a_phrase_has_to_be_typed_in_full() {
    let mut guarded = dialog().require_phrase("feat".into());
    for c in "fea".chars() {
        guarded.handle(Action::InsertChar(c));
    }
    assert_eq!(guarded.handle(Action::Select), Answer::Consumed);
    guarded.handle(Action::InsertChar('x'));
    assert_eq!(guarded.handle(Action::Select), Answer::Consumed);
    guarded.handle(Action::DeleteChar);
    guarded.handle(Action::InsertChar('t'));
    assert_eq!(guarded.handle(Action::Select), Answer::Run(Work::DeleteSpace));
    assert_eq!(dialog().handle(Action::ClosePopup), Answer::Close);
}

#[test]
fn a_dialog_lists_what_would_be_lost() {
    let body = dialog()
        .at_risk(
            vec!["3 uncommitted files".into()],
            Some("Deleting it cannot be undone.".into()),
        )
        .removing(vec!["the branch".into()], None)
        .body(&Theme::tokyo_night());
    let said = text(&body);
    assert!(said.contains("This would destroy:\n  \u{2022} 3 uncommitted files"));
    assert!(said.contains("Deleting also removes:\n  \u{2022} the branch"));
    assert!(said.contains("Deleting it cannot be undone."));
}

// --- The name prompt --------------------------------------------------------

#[test]
fn a_space_becomes_a_dash_and_the_rest_is_refused() {
    let mut prompt = CreateWorktreeComponent::new("shanti".into(), Backend::Git, false);
    for c in "my branch~é!".chars() {
        prompt.handle(Action::InsertChar(c));
    }
    assert_eq!(prompt.new_worktree_name, "my-branché");
    assert_eq!(
        prompt.handle(Action::Select),
        Naming::Create {
            name: "my-branché".to_string(),
            backend: Backend::Git,
            pr_url: None
        }
    );
}

#[test]
fn a_name_is_judged_as_git_judges_it() {
    for good in ["feature", "feat/x", "a.b", "1"] {
        assert!(is_valid_branch_name(good), "{good}");
    }
    for bad in ["", "-x", ".x", "x.", "x/", "a..b", "a@{b"] {
        assert!(!is_valid_branch_name(bad), "{bad}");
    }
}

#[test]
fn tab_switches_the_backend_only_where_there_are_two() {
    let mut one = CreateWorktreeComponent::new("shanti".into(), Backend::Git, false);
    assert_eq!(one.handle(Action::FocusNext), Naming::Ignored);
    assert_eq!(one.backend, Backend::Git);
    let mut two = CreateWorktreeComponent::new("shanti".into(), Backend::Git, true);
    assert_eq!(two.handle(Action::FocusNext), Naming::Renamed);
    assert_eq!(two.backend, Backend::Jj);
    assert_eq!(two.prompt(&Theme::tokyo_night()).title, "New Workspace");
    assert_eq!(capitalised("worktree"), "Worktree");
    assert_eq!(capitalised("ßx"), "SSx");
}

// --- The directory picker ---------------------------------------------------

#[test]
fn the_picker_grows_with_its_list_up_to_ten_rows() {
    let height = |n: usize| {
        let dirs = (0..n).map(|i| format!("/{i}")).collect();
        SelectDirectoryComponent::new(dirs, request())
            .area(frame(120, 40))
            .height
    };
    assert_eq!(height(2), 7);
    assert_eq!(height(9), 14);
    assert_eq!(height(10), 15);
    assert_eq!(height(65_536), 15);
}

#[test]
fn the_picker_names_git_and_the_jj_escape_hatch_at_the_size_floor() {
    let picker = SelectDirectoryComponent::new(
        vec!["/home/u/src/work".into(), "/home/u/src/play".into()],
        request(),
    );
    let view = picker
        .draw(picker.area(frame(40, 10)), &Theme::tokyo_night())
        .expect("drawn at the floor");
    let prompt = view.prompt.text();
    assert!(
        prompt.contains("Clone with git into"),
        "the picker should say the clone is a git clone:\n{prompt}"
    );
    let note = view.note.expect("a line beneath the list").text();
    assert!(
        note.contains("jj git init --colocate"),
        "the picker should say how to adopt jj afterwards:\n{note}"
    );
}

#[test]
fn a_picked_directory_is_handed_over_once() {
    let mut picker = SelectDirectoryComponent::new(
        vec!["/home/u/src/work".into(), "/home/u/src/play".into()],
        request(),
    );
    assert_eq!(picker.handle(Action::MoveDown), Choice::Consumed);
    assert_eq!(
        picker.handle(Action::Select),
        Choice::Picked("/home/u/src/play".to_string(), request())
    );
    assert_eq!(picker.handle(Action::Select), Choice::Close);
}

// --- The jump list ----------------------------------------------------------

fn unknown() -> SpaceStatus {
    status(RemoteState::Unknown, "not read yet")
}

fn status(remote: RemoteState, local: &str) -> SpaceStatus {
    SpaceStatus {
        remote,
        upstream: Glyph {
            symbol: "?".to_string(),
            tone: Tone::Muted,
            meaning: "upstream".to_string(),
        },
        local: Glyph {
            symbol: "*".to_string(),
            tone: Tone::Warn,
            meaning: local.to_string(),
        },
    }
}

fn entry(repo: &str, name: &str, committed_at: Option<i64>) -> SpaceEntry {
    let repo_path = format!("/repos/{repo}");
    SpaceEntry {
        repo_name: repo.to_string(),
        repo_path: repo_path.clone(),
        space: Space {
            repo: RepoId::from_path(&repo_path),
            backend: Backend::Git,
            name: name.to_string(),
            path: format!("{repo_path}/{name}"),
            status: unknown(),
            tip: committed_at.map(|at| SpaceTip::new("a commit", at)),
        },
    }
}

#[test]
fn entries_are_ordered_by_recency_across_repositories() {
    let modal = RecentSpacesModal::new(vec![
        entry("alpha", "old", Some(100)),
        entry("beta", "new", Some(300)),
        entry("alpha", "mid", Some(200)),
    ]);
    let names: Vec<&str> = modal
        .entries
        .iter()
        .map(|e| e.space.name.as_str())
        .collect();
    assert_eq!(names, vec!["new", "mid", "old"]);
}

#[test]
fn spaces_with_no_tip_sort_after_ones_with_a_tip() {
    let modal = RecentSpacesModal::new(vec![
        entry("alpha", "unborn", None),
        entry("alpha", "has-history", Some(50)),
    ]);
    let names: Vec<&str> = modal
        .entries
        .iter()
        .map(|e| e.space.name.as_str())
        .collect();
    assert_eq!(names, vec!["has-history", "unborn"]);
}

#[test]
fn selecting_the_top_entry_yields_its_path() {
    let mut modal = RecentSpacesModal::new(vec![
        entry("alpha", "old", Some(1)),
        entry("beta", "new", Some(2)),
    ]);
    match modal.handle(Action::Select) {
        Jump::SelectSpace(path) => {
            assert_eq!(path, "/repos/beta/new");
        }
        _ => panic!("expected a space to be selected"),
    }
}

// --- The scheme picker ------------------------------------------------------

#[test]
fn it_opens_on_the_active_scheme() {
    let gruvbox = find("gruvbox-dark").expect("catalogue entry");
    let current = gruvbox.theme();

    let picker = ThemeModal::new(&current);
    assert_eq!(picker.selected_scheme().name, "gruvbox-dark");
}

#[test]
fn moving_installs_the_highlighted_scheme() {
    let mut current = Theme::default();
    let mut picker = ThemeModal::new(&current);

    picker.handle_action(Action::GoLast, &mut current);
    let catalogue = all();
    let last = catalogue.last().expect("a non-empty catalogue");
    assert_eq!(current, last.theme());

    picker.handle_action(Action::GoFirst, &mut current);
    assert_eq!(current, catalogue[0].theme());
}

#[test]
fn leaving_the_picker_restores_the_scheme() {
    let mut current = Theme::default();
    let mut picker = ThemeModal::new(&current);
    picker.handle(Action::GoLast, &mut current);
    assert_ne!(current, Theme::default());
    assert_eq!(picker.handle(Action::ClosePopup, &mut current), Pick::Close);
    assert_eq!(current, Theme::default());

    picker.handle(Action::GoLast, &mut current);
    let last = all().last().map(|s| s.name).expect("a catalogue");
    assert_eq!(picker.handle(Action::Select, &mut current), Pick::Save(last));
}

// --- The detail pane --------------------------------------------------------

fn a_space(status: SpaceStatus, tip: Option<SpaceTip>) -> Space {
    Space {
        repo: RepoId::from_path("shanti"),
        backend: Backend::Git,
        name: "feature".to_string(),
        path: "/w/shanti/feature".to_string(),
        status,
        tip,
    }
}

fn screen(space: Option<&Space>, height: u16) -> String {
    let view = detail::draw(frame(60, height), space, 1_000_000, &Theme::tokyo_night());
    format!("{}\n{}", view.title.text(), text(&view.rows))
}

#[test]
fn every_field_renders_for_a_git_space() {
    let space = a_space(
        status(
            RemoteState::Tracking {
                ahead: 2,
                behind: 1,
            },
            "uncommitted changes",
        ),
        Some(SpaceTip::new("teach the pane to draw", 1_000_000 - 7200)),
    );
    let screen = screen(Some(&space), HEIGHT);

    assert!(screen.contains("teach the pane to draw"), "{screen}");
    assert!(screen.contains("2h ago"), "{screen}");
    assert!(screen.contains("2 ahead, 1 behind"), "{screen}");
    assert!(screen.contains("uncommitted changes"), "{screen}");
    assert!(screen.contains("feature"), "{screen}");
}

#[test]
fn every_field_renders_for_a_jj_space() {
    let space = Space {
        backend: Backend::Jj,
        ..a_space(
            status(RemoteState::Untracked, "conflict"),
            Some(SpaceTip::new("", 1_000_000 - 60 * 60 * 24 * 3)),
        )
    };
    let screen = screen(Some(&space), HEIGHT);

    assert!(screen.contains("(no description)"), "{screen}");
    assert!(screen.contains("3d ago"), "{screen}");
    assert!(screen.contains("never pushed"), "{screen}");
    assert!(screen.contains("conflict"), "{screen}");
}

#[test]
fn a_space_whose_head_was_not_read_says_so_without_a_date() {
    let space = a_space(unknown(), None);
    let screen = screen(Some(&space), HEIGHT);
    assert!(screen.contains("Latest"), "{screen}");
    assert!(!screen.contains("ago"), "{screen}");
}

#[test]
fn an_empty_selection_draws_the_frame_and_nothing_else() {
    let screen = screen(None, HEIGHT);
    assert!(screen.contains("Detail"), "{screen}");
    assert!(!screen.contains("Path"), "{screen}");
}

#[test]
fn a_path_too_long_for_the_pane_keeps_its_end() {
    assert_eq!(truncate_left("/a/very/long/path", 8), "…ng/path");
    assert_eq!(truncate_left("/short", 8), "/short");
    assert_eq!(truncate_left("/a/very/long/path", 1), "…");
    assert_eq!(truncate_left("/a/very/long/path", 0), "");
}

#[test]
fn the_pane_is_hidden_rather_than_clipped_when_the_list_needs_the_room() {
    assert!(detail::fits(frame(MIN_WIDTH, MIN_HEIGHT + HEIGHT)));
    assert!(!detail::fits(frame(MIN_WIDTH, MIN_HEIGHT + HEIGHT - 1)));
    assert!(!detail::fits(frame(MIN_WIDTH - 1, MIN_HEIGHT + HEIGHT)));
}
