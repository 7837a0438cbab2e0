use shanti::components::repositories::{spaces_of, Listing, RepositoriesComponent};
use shanti::components::{Action, EventState};
use shanti::keymap::InputMode;
use shanti::screen::Rect;
use shanti::theme::Theme;
use shanti::vcs::{Backend, Glyph, RemoteState, Repo, RepoId, Space, SpaceStatus, Tone};

fn unknown() -> SpaceStatus {
    let glyph = Glyph {
        symbol: "?".to_string(),
        tone: Tone::Muted,
        meaning: "not read yet".to_string(),
    };
    SpaceStatus {
        remote: RemoteState::Unknown,
        upstream: glyph.clone(),
        local: glyph,
    }
}

/// What one backend on `path` lists: a space for each name.
fn listing(path: &str, backend: Backend, names: &[&str]) -> Listing {
    let repo = Repo::new("shanti", path, backend);
    let spaces = names
        .iter()
        .map(|name| Space {
            repo: repo.id.clone(),
            backend,
            name: name.to_string(),
            path: format!("{path}/{name}"),
            status: unknown(),
            tip: None,
        })
        .collect();
    Listing {
        repo,
        spaces: Ok(spaces),
    }
}

fn colocated_listings() -> Vec<Listing> {
    vec![
        listing("/repos/shanti", Backend::Jj, &["default"]),
        listing("/repos/shanti", Backend::Git, &["feature-a", "feature-b"]),
    ]
}

fn repos(listings: &[Listing]) -> Vec<Repo> {
    listings.iter().map(|l| l.repo.clone()).collect()
}

fn colocated() -> RepositoriesComponent {
    RepositoriesComponent::new(repos(&colocated_listings()))
}

fn listed(repos: &RepositoriesComponent) -> Vec<&Repo> {
    repos
        .filtered_items()
        .into_iter()
        .map(|i| &repos.repositories[i])
        .collect()
}

#[test]
fn a_colocated_repository_lists_the_spaces_of_both_backends() {
    let (spaces, failed) = spaces_of(&colocated_listings());

    assert!(
        failed.is_empty(),
        "nothing should have failed: {:?}",
        failed
    );
    let names: Vec<&str> = spaces.iter().map(|e| e.space.name.as_str()).collect();
    assert_eq!(names, vec!["default", "feature-a", "feature-b"]);
    let backends: Vec<Backend> = spaces.iter().map(|e| e.space.backend).collect();
    assert_eq!(
        backends,
        vec![Backend::Jj, Backend::Git, Backend::Git],
        "every space must remember which backend produced it"
    );
}

#[test]
fn a_space_is_routed_to_the_backend_that_owns_it() {
    let repos = colocated();
    let (spaces, _) = spaces_of(&colocated_listings());

    for entry in &spaces {
        let repo = repos
            .backend_for(&entry.space)
            .unwrap_or_else(|| panic!("no backend for the space {:?}", entry.space.name));
        assert_eq!(
            repo.backend, entry.space.backend,
            "the space {:?} was routed to the wrong backend",
            entry.space.name
        );
    }
}

#[test]
fn a_space_of_a_backend_that_is_not_open_routes_nowhere() {
    let repos =
        RepositoriesComponent::new(vec![Repo::new("shanti", "/repos/shanti", Backend::Jj)]);
    let orphan = Space {
        repo: RepoId::from_path("/repos/shanti"),
        backend: Backend::Git,
        name: "feature-a".to_string(),
        path: "/repos/shanti/feature-a".to_string(),
        status: unknown(),
        tip: None,
    };

    assert!(repos.backend_for(&orphan).is_none());
}

#[test]
fn the_picker_shows_a_colocated_repository_once_as_its_owner() {
    let repos = colocated();

    let shown: Vec<Backend> = listed(&repos).iter().map(|r| r.backend).collect();
    assert_eq!(shown, vec![Backend::Jj]);
    assert_eq!(
        repos.selected_repository().map(|r| r.backend),
        Some(Backend::Jj),
        "creating on a colocated repo defaults to jj"
    );
}

#[test]
fn filtering_the_picker_still_shows_a_colocated_repository_once() {
    let mut repos = colocated();
    repos.filter.value = "shan".to_string();

    assert_eq!(repos.filtered_items().len(), 1);
}

#[test]
fn backends_of_reports_every_backend_open_on_a_repository() {
    assert_eq!(
        colocated().backends_of(&RepoId::from_path("/repos/shanti")),
        vec![Backend::Jj, Backend::Git]
    );
}

#[test]
fn replacing_the_backends_swaps_the_whole_set() {
    let mut repos = colocated();
    repos.replace_backends(vec![Repo::new("shanti", "/repos/eclair", Backend::Git)]);

    assert_eq!(listed(&repos).len(), 1);
    assert!(repos
        .backends_of(&RepoId::from_path("/repos/shanti"))
        .is_empty());
}

#[test]
fn removing_a_repository_drops_every_backend_it_was_open_as() {
    let mut repos = colocated();
    assert_eq!(repos.remove(&RepoId::from_path("/repos/shanti")), 2);
    assert!(repos.filtered_items().is_empty());
    assert_eq!(repos.remove(&RepoId::from_path("/repos/shanti")), 0);
}

#[test]
fn a_repository_that_arrives_twice_is_listed_once() {
    let mut component = RepositoriesComponent::new(Vec::new());
    let batch = || {
        vec![
            listing("/repos/shanti", Backend::Jj, &["default"]),
            listing("/repos/shanti", Backend::Git, &["feature-a"]),
        ]
    };
    for _ in 0..2 {
        component.add_repositories(repos(&batch()));
    }

    assert_eq!(
        component.filtered_items().len(),
        1,
        "the picker doubled a repo"
    );
    assert_eq!(
        component
            .backends_of(&RepoId::from_path("/repos/shanti"))
            .len(),
        2,
        "each backend should be open exactly once"
    );
    assert_eq!(spaces_of(&batch()).0.len(), 2, "spaces were doubled");
}

#[test]
fn a_repository_that_cannot_be_listed_is_named() {
    let broken = Listing {
        repo: Repo::new("eclair", "/repos/eclair", Backend::Git),
        spaces: Err("corrupt".to_string()),
    };
    let (spaces, failed) = spaces_of(&vec![
        broken,
        listing("/repos/shanti", Backend::Git, &["one"]),
    ]);
    assert_eq!(failed, vec!["eclair"]);
    assert_eq!(spaces.len(), 1);
}

#[test]
fn a_repository_is_selected_by_its_name() {
    let mut repos = RepositoriesComponent::new(vec![
        Repo::new("alpha", "/repos/alpha", Backend::Git),
        Repo::new("beta", "/repos/beta", Backend::Git),
    ]);
    assert!(repos.select_repository_by_name("beta"));
    assert_eq!(
        repos.selected_repository().map(|r| r.name.as_str()),
        Some("beta")
    );
    assert!(!repos.select_repository_by_name("gamma"));
    assert_eq!(repos.repository_paths(), vec!["/repos/alpha", "/repos/beta"]);
}

#[test]
fn the_best_match_comes_first() {
    let mut repos = RepositoriesComponent::new(vec![
        Repo::new("a-w-x", "/repos/a", Backend::Git),
        Repo::new("wax", "/repos/b", Backend::Git),
        Repo::new("other", "/repos/c", Backend::Git),
    ]);
    for c in "wax".chars() {
        assert_eq!(
            repos.handle_action(Action::InsertChar(c)),
            EventState::Consumed
        );
    }
    let names: Vec<&str> = listed(&repos).iter().map(|r| r.name.as_str()).collect();
    assert_eq!(names.first(), Some(&"wax"));
    assert!(!names.contains(&"other"));
}

#[test]
fn the_pane_is_drawn_inside_its_border() {
    let repos = colocated();
    let area = Rect {
        x: 0,
        y: 0,
        width: 60,
        height: 12,
    };
    let view = repos
        .draw(area, InputMode::Normal, &Theme::tokyo_night())
        .expect("there is room");
    assert_eq!(view.rows.len(), 1);
    assert!(view.rows[0].text().contains("shanti"));
    assert_eq!(
        view.list_area,
        Rect {
            x: 1,
            y: 1,
            width: 58,
            height: 10
        }
    );
    assert_eq!(
        repos.draw(Rect::zero(), InputMode::Normal, &Theme::tokyo_night()),
        None
    );
}
