use std::path::{Path, PathBuf};

use shanti::git::discovery::{is_excluded, is_git_dir, Entry, Walk};
use shanti::git::repository::{
    directory_name, find_default_branch_name, is_worktree_dirty, list_repositories,
    remote_status_of_branch, repository_name, worktrees_of_repositories, BranchProbe, DefaultProbe,
    NewWorktree, Opened, Progress, Reply, Repository, Step, WorktreeProbe,
};
use shanti::git::status::{risk_of, status_of};
use shanti::git::{RemoteStatus, Worktree};
use shanti::vcs::{Consequence, RemoteState, Tone};
use tempfile::{tempdir, Builder, TempDir};

/// The entries of a directory, in the order of their names.
fn entries(path: &Path) -> Option<Vec<Entry>> {
    let mut found: Vec<Entry> = path
        .read_dir()
        .ok()?
        .flatten()
        .map(|entry| Entry {
            name: entry.file_name().to_string_lossy().into_owned(),
            path: entry.path().to_string_lossy().into_owned(),
            is_dir: entry.path().is_dir(),
        })
        .collect();
    found.sort_by(|a, b| a.name.cmp(&b.name));
    Some(found)
}

fn git_dirs(root: &Path) -> Vec<String> {
    let mut walk = Walk::find_git_dirs(root.to_str().unwrap());
    while let Some(dir) = walk.next_dir() {
        let read = entries(Path::new(dir));
        walk.visit(read);
    }
    walk.git_dirs
}

/// Makes a directory of this very name.
fn make_dir(parent: &Path, name: &str) -> PathBuf {
    Builder::new()
        .prefix(name)
        .rand_bytes(0)
        .tempdir_in(parent)
        .expect("Could not create a directory")
        .keep()
}

fn temp() -> TempDir {
    tempdir().expect("Could not create temporary directory")
}

fn open(path: &str) -> Result<Repository, String> {
    let opened = git2::Repository::open(path)
        .map(|repo| Opened {
            workdir: repo
                .workdir()
                .map(|dir| dir.to_string_lossy().into_owned()),
            git_dir: repo.path().to_string_lossy().into_owned(),
        })
        .map_err(|error| error.message().to_string());
    Repository::from_path(path, opened)
}

#[test]
fn test_not_git_dir() {
    let temp_dir = temp();
    assert!(
        !is_git_dir(&entries(temp_dir.path()).unwrap()),
        "Expected is_git_dir to be false, but it was true"
    );
}

#[test]
fn test_git_dir() {
    let temp_dir = temp();
    make_dir(temp_dir.path(), ".git");
    assert!(
        is_git_dir(&entries(temp_dir.path()).unwrap()),
        "Expected is_git_dir to be true, but it was false"
    );
}

#[test]
fn test_list() {
    let temp_dir = temp();
    for path in [
        "first_git_dir/.git",
        "second_git_dir/.git",
        "third_git_dir/subdir/subdir",
        "fourth_git_dir/subdir/subdir/.git",
    ] {
        let mut at = temp_dir.path().to_path_buf();
        for name in path.split('/') {
            at = make_dir(&at, name);
        }
    }

    let found = git_dirs(temp_dir.path());
    for path in [
        "first_git_dir",
        "second_git_dir",
        "fourth_git_dir/subdir/subdir",
    ] {
        let expected_dir = temp_dir.path().join(path);
        assert!(
            found.iter().any(|dir| dir == expected_dir.to_str().unwrap()),
            "Expected {} to be listed in the git subdirectories, but it was not included",
            expected_dir.to_str().unwrap()
        );
    }
    assert_eq!(found.len(), 3);
}

#[test]
fn a_directory_that_cannot_be_read_is_passed_over() {
    let mut walk = Walk::find_git_dirs("/src");
    walk.visit(Some(vec![
        Entry {
            name: "a".to_string(),
            path: "/src/a".to_string(),
            is_dir: true,
        },
        Entry {
            name: "notes".to_string(),
            path: "/src/notes".to_string(),
            is_dir: false,
        },
        Entry {
            name: "b".to_string(),
            path: "/src/b".to_string(),
            is_dir: true,
        },
    ]));
    assert_eq!(walk.next_dir(), Some("/src/a"));
    walk.visit(None);
    assert_eq!(walk.next_dir(), Some("/src/b"));
    walk.visit(Some(vec![Entry {
        name: ".git".to_string(),
        path: "/src/b/.git".to_string(),
        is_dir: false,
    }]));
    assert_eq!(walk.next_dir(), None);
    assert_eq!(walk.git_dirs, vec!["/src/b".to_string()]);
}

#[test]
fn test_name_of_normal_repository() {
    let temp_dir = temp();
    let path = temp_dir.path().join("my-repo");
    git2::Repository::init(&path).expect("Could not init repository");

    let repo = open(path.to_str().unwrap()).expect("Could not open");
    assert_eq!(repo.name(), "my-repo");
    assert_eq!(repo.name_str(), "my-repo");
}

#[test]
fn test_name_ignores_trailing_separator() {
    let temp_dir = temp();
    let path = temp_dir.path().join("my-repo");
    git2::Repository::init(&path).expect("Could not init repository");

    let with_slash = format!("{}/", path.to_str().unwrap());
    let repo = open(&with_slash).expect("Could not open");
    assert_eq!(repo.name(), "my-repo");
}

#[test]
fn test_name_keeps_dots_in_the_directory_name() {
    let temp_dir = temp();
    let path = temp_dir.path().join("my.repo.v2");
    git2::Repository::init(&path).expect("Could not init repository");

    let repo = open(path.to_str().unwrap()).expect("Could not open");
    assert_eq!(repo.name(), "my.repo.v2");
}

#[test]
fn test_name_of_bare_repository() {
    let temp_dir = temp();
    let path = temp_dir.path().join("bare-repo.git");
    git2::Repository::init_bare(&path).expect("Could not init bare repository");

    let repo = open(path.to_str().unwrap()).expect("Could not open");
    assert_eq!(repo.name(), "bare-repo");
}

#[test]
fn a_repository_that_cannot_be_opened_is_left_out_of_the_list() {
    let broken = Repository::from_path("/src/broken", Err("bad object".to_string()));
    assert_eq!(
        broken,
        Err("Could not open repository at /src/broken: bad object".to_string())
    );
    let fine = Repository::from_path(
        "/src/fine",
        Ok(Opened {
            workdir: Some("/src/fine/".to_string()),
            git_dir: "/src/fine/.git/".to_string(),
        }),
    );
    let listed = list_repositories(&vec![broken, fine]);
    assert_eq!(listed.len(), 1);
    assert_eq!(listed[0].name_str(), "fine");
}

#[test]
fn names_come_from_the_last_part_of_a_path() {
    assert_eq!(directory_name("/a/b/"), "b");
    assert_eq!(repository_name(None, "/a/bare.git"), "bare");
    assert_eq!(repository_name(Some("/a/b"), "/a/b/.git"), "b");
}

#[test]
fn the_default_branch_is_what_the_remote_head_names() {
    let mut probe = DefaultProbe {
        head: Some("origin/trunk".to_string()),
        has_main: true,
        has_master: true,
    };
    assert_eq!(find_default_branch_name(&probe).as_deref(), Some("trunk"));
    probe.head = None;
    assert_eq!(find_default_branch_name(&probe).as_deref(), Some("main"));
    probe.has_main = false;
    assert_eq!(find_default_branch_name(&probe).as_deref(), Some("master"));
    probe.has_master = false;
    assert_eq!(find_default_branch_name(&probe), None);
}

fn a_repository() -> Repository {
    Repository {
        name: "shanti".to_string(),
    }
}

/// Runs a creation against replies looked up by step.
fn create(reply: impl Fn(&Step) -> Reply) -> (NewWorktree, Vec<Step>, Result<(), String>) {
    let (plan, mut step) = a_repository().create_new_worktree("topic", "/spaces");
    let mut taken = Vec::new();
    loop {
        let answer = reply(&step);
        let seen = clone_step(&step);
        taken.push(seen);
        match plan.after(step, answer) {
            Progress::Next(next) => step = next,
            Progress::Created => return (plan, taken, Ok(())),
            Progress::Stopped(why) => return (plan, taken, Err(why)),
        }
    }
}

fn clone_step(step: &Step) -> Step {
    match step {
        Step::MakeDir => Step::MakeDir,
        Step::FindRemote(remote) => Step::FindRemote(remote.clone()),
        Step::ResolveRemote(remote) => Step::ResolveRemote(remote.clone()),
        Step::FindLocal => Step::FindLocal,
        Step::BranchFromRemote(remote) => Step::BranchFromRemote(remote.clone()),
        Step::SetUpstream(remote) => Step::SetUpstream(remote.clone()),
        Step::FindDefault => Step::FindDefault,
        Step::BranchFrom(name) => Step::BranchFrom(name.clone()),
        Step::AddWorktree { on_branch } => Step::AddWorktree {
            on_branch: *on_branch,
        },
        Step::FindCreated => Step::FindCreated,
    }
}

#[test]
fn a_branch_on_the_remote_is_followed() {
    let (plan, steps, outcome) = create(|step| match step {
        Step::FindLocal => Reply::Failed("no such branch".to_string()),
        _ => Reply::Done,
    });
    assert_eq!(outcome, Ok(()));
    assert_eq!(plan.dir, "/spaces/shanti/topic");
    assert_eq!(
        steps,
        vec![
            Step::MakeDir,
            Step::FindRemote("origin/topic".to_string()),
            Step::ResolveRemote("origin/topic".to_string()),
            Step::FindLocal,
            Step::BranchFromRemote("origin/topic".to_string()),
            Step::SetUpstream("origin/topic".to_string()),
            Step::AddWorktree { on_branch: true },
            Step::FindCreated,
        ]
    );
    let worktree = plan.created(RemoteStatus::Exists);
    assert_eq!(
        worktree,
        Worktree {
            name: "topic".to_string(),
            path: "/spaces/shanti/topic".to_string(),
            remote_status: RemoteStatus::Exists,
            is_dirty: false,
        }
    );
}

#[test]
fn a_new_branch_starts_from_the_default_one_of_the_remote() {
    let (_, steps, outcome) = create(|step| match step {
        Step::FindRemote(_) => Reply::Failed("no such branch".to_string()),
        Step::FindDefault => Reply::Default(Some("main".to_string())),
        _ => Reply::Done,
    });
    assert_eq!(outcome, Ok(()));
    assert_eq!(
        steps,
        vec![
            Step::MakeDir,
            Step::FindRemote("origin/topic".to_string()),
            Step::FindDefault,
            Step::BranchFrom("origin/main".to_string()),
            Step::AddWorktree { on_branch: true },
            Step::FindCreated,
        ]
    );
}

#[test]
fn a_creation_that_cannot_make_its_directory_stops() {
    let (_, steps, outcome) = create(|_| Reply::Failed("read-only".to_string()));
    assert_eq!(steps, vec![Step::MakeDir]);
    let why = outcome.unwrap_err();
    assert!(
        why.starts_with("Could not create worktrees directory \"/spaces/shanti\""),
        "{why}"
    );
}

#[test]
fn the_base_is_the_remote_branch_or_the_default_one() {
    let probe = DefaultProbe {
        head: None,
        has_main: true,
        has_master: false,
    };
    let nothing = DefaultProbe {
        head: None,
        has_main: false,
        has_master: false,
    };
    let repo = a_repository();
    assert_eq!(
        repo.resolve_base_branch("topic", true, &probe),
        "Will track origin/topic"
    );
    assert_eq!(
        repo.resolve_base_branch("topic", false, &probe),
        "Will be created from main (default branch)"
    );
    assert_eq!(
        repo.resolve_base_branch("topic", false, &nothing),
        "Will be created from HEAD"
    );
}

#[test]
fn a_branch_stands_to_its_remote_in_one_of_three_ways() {
    let probe = |configured, upstream| {
        remote_status_of_branch(Some(BranchProbe {
            named: true,
            configured,
            upstream,
        }))
    };
    assert_eq!(probe(true, true), RemoteStatus::Exists);
    assert_eq!(probe(true, false), RemoteStatus::Gone);
    assert_eq!(probe(false, false), RemoteStatus::NeverPushed);
    assert_eq!(remote_status_of_branch(None), RemoteStatus::NeverPushed);
}

#[test]
fn a_directory_jj_drives_is_not_dirty_to_git() {
    assert!(is_worktree_dirty(false, Some(1)));
    assert!(!is_worktree_dirty(false, Some(0)));
    assert!(!is_worktree_dirty(false, None));
    assert!(!is_worktree_dirty(true, Some(1)));
}

#[test]
fn worktrees_of_every_repository_come_in_order() {
    let probe = |name: &str, changes| WorktreeProbe {
        name: name.to_string(),
        path: format!("/spaces/{name}"),
        branch: None,
        has_jj: false,
        changes: Some(changes),
    };
    let all = worktrees_of_repositories(
        &vec![a_repository(), a_repository()],
        &vec![vec![probe("a", 0)], vec![probe("b", 2), probe("c", 0)]],
    );
    let names: Vec<&str> = all.iter().map(|w| w.name.as_str()).collect();
    assert_eq!(names, vec!["a", "b", "c"]);
    let dirty: Vec<bool> = all.iter().map(|w| w.is_dirty).collect();
    assert_eq!(dirty, vec![false, true, false]);
}

// --- what is shown of a worktree ---------------------------------------------

#[test]
fn a_directory_is_excluded_by_its_exact_path() {
    let out = vec!["/spaces".to_string(), "/tmp".to_string()];
    assert!(is_excluded("/tmp", &out));
    assert!(!is_excluded("/tmp/one", &out));
    assert!(!is_excluded("/spaces", &Vec::new()));
}

#[test]
fn the_marks_tell_how_a_worktree_stands() {
    let symbol = |ahead, behind| {
        status_of(RemoteStatus::Exists, ahead, behind, false)
            .upstream
            .symbol
    };
    assert_eq!(symbol(0, 0), "\u{2714}");
    assert_eq!(symbol(2, 0), "\u{2191}");
    assert_eq!(symbol(0, 3), "\u{2193}");
    assert_eq!(symbol(2, 3), "\u{2195}");

    let status = status_of(RemoteStatus::Exists, 2, 3, true);
    assert_eq!(status.remote, RemoteState::Tracking { ahead: 2, behind: 3 });
    assert_eq!(status.local.symbol, "*");
    assert_eq!(status.local.tone, Tone::Warn);

    let gone = status_of(RemoteStatus::Gone, 0, 0, false);
    assert_eq!(gone.remote, RemoteState::Gone);
    assert_eq!(gone.upstream.symbol, "\u{2718}");
    assert_eq!(gone.upstream.tone, Tone::Danger);
    let new = status_of(RemoteStatus::NeverPushed, 0, 0, false);
    assert_eq!(new.remote, RemoteState::Untracked);
    assert_eq!(new.upstream.symbol, "\u{2b06}");
    assert_eq!(new.local.symbol, " ");
}

#[test]
fn only_a_clean_worktree_goes_without_a_loss() {
    let clean = risk_of("/spaces/topic", "topic", true, Some(0));
    assert_eq!(clean.consequence, Consequence::Nothing);
    assert!(clean.losses.is_empty());
    assert_eq!(clean.removals, vec!["the directory /spaces/topic"]);
    assert_eq!(clean.retained.as_deref(), Some("the branch topic"));
    assert_eq!(clean.aftermath, None);

    let loss = |listed, changes| {
        let risk = risk_of("/spaces/topic", "topic", listed, changes);
        assert_eq!(risk.consequence, Consequence::PermanentLoss);
        assert_eq!(risk.aftermath.as_deref(), Some("There is no way back."));
        risk.losses
    };
    assert_eq!(loss(true, Some(1)), vec!["1 uncommitted file"]);
    assert_eq!(loss(true, Some(12)), vec!["12 uncommitted files"]);
    assert_eq!(loss(true, None), vec!["its state could not be read"]);
    assert_eq!(
        loss(false, Some(0)),
        vec!["its repository is not listed, so nothing is known of it"]
    );
}
