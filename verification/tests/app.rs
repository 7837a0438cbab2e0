use shanti::app::keys::NO_WORKER;
use shanti::app::view::Drawing;
use shanti::app::App;
use shanti::cli::Args;
use shanti::components::confirm::Gate;
use shanti::components::context::{Creation, Effect, Modal};
use shanti::components::notify::{Severity, VISIBLE_FOR};
use shanti::components::repositories::Listing;
use shanti::components::worktrees::row::SpaceEntry;
use shanti::config::{Config, Hooks};
use shanti::events::{forwarded, AppEvent, Input, KeyEventKind};
use shanti::github::{PrInfo, PrUrl};
use shanti::hooks::{HookReport, HookSettings, StepResult};
use shanti::jobs::in_flight::{Kind, TrackedJob};
use shanti::jobs::{Completion, Job, JobId, JobKind, JobResult, Worker};
use shanti::keymap::{InputMode, KeyCode, KeyEvent, KeyModifiers};
use shanti::screen::Rect;
use shanti::space_meta::SpaceMeta;
use shanti::theme::Theme;
use shanti::vcs::{
    Backend, Consequence, DeletionRisk, Glyph, RemoteState, Repo, RepoId, Space, SpaceStatus, Tone,
};
use shanti::{output, Outcome};

fn key(code: KeyCode) -> KeyEvent {
    KeyEvent {
        code,
        modifiers: KeyModifiers::Nothing,
    }
}

fn ch(c: char) -> KeyEvent {
    key(KeyCode::Char(c))
}

fn repo(name: &str) -> Repo {
    Repo::new(name, &format!("/repos/{name}"), Backend::Git)
}

fn status() -> SpaceStatus {
    let glyph = Glyph {
        symbol: "?".to_string(),
        tone: Tone::Muted,
        meaning: "not read yet".to_string(),
    };
    SpaceStatus {
        remote: RemoteState::Unknown,
        upstream: glyph.clone(),
        local: glyph,
    }
}

fn space(repo: &Repo, name: &str) -> Space {
    Space {
        repo: repo.id.clone(),
        backend: repo.backend,
        name: name.to_string(),
        path: format!("/spaces/{}/{}", repo.name, name),
        status: status(),
        tip: None,
    }
}

fn entry(repo: &Repo, name: &str) -> SpaceEntry {
    SpaceEntry {
        repo_name: repo.name.clone(),
        repo_path: repo.path.clone(),
        space: space(repo, name),
    }
}

/// Two repositories without spaces under `/repos`, and the arguments naming it.
fn args() -> Args {
    Args::for_dirs("/spaces".to_string(), vec!["/repos".to_string()])
}

fn app(args: Args) -> App {
    App::with_args(args, SpaceMeta::in_memory())
}

fn with_worker(args: Args) -> App {
    let mut app = app(args);
    app.attach_worker(Worker::with_threads(1));
    app
}

fn app_with_worker() -> App {
    with_worker(Args::for_dirs("/spaces".to_string(), vec![]))
}

/// What the next job of the queue comes back with.
fn next_result(app: &mut App) -> JobResult {
    let task = app.background.next_job().expect("a job waits");
    let kind = task.job.kind();
    let outcome = match task.job {
        Job::ScanRepositories { roots, .. } => {
            assert_eq!(roots.len(), 1);
            Ok(Completion::Repositories(vec![
                Listing {
                    repo: repo("one"),
                    spaces: Ok(Vec::new()),
                },
                Listing {
                    repo: repo("two"),
                    spaces: Ok(Vec::new()),
                },
            ]))
        }
        Job::FetchRemotes { path } => Ok(Completion::Fetched { path }),
        Job::SpaceStatus { path } => Ok(Completion::Spaces {
            path,
            spaces: Vec::new(),
        }),
        other => panic!("nobody carries out {other:?}"),
    };
    assert!(app.background.finish(task.id), "the pool dropped a result");
    JobResult {
        id: task.id,
        kind,
        outcome,
    }
}

/// An application whose first scan has run to completion.
fn scanned(args: Args) -> App {
    let mut app = with_worker(args);
    while app.is_scanning() {
        let result = next_result(&mut app);
        app.handle_job(result);
    }
    app
}

/// A scanned application with one space selected.
fn with_space() -> App {
    let mut app = scanned(args());
    app.ctx.worktrees.add(entry(&repo("one"), "feature"));
    app
}

fn count(app: &App, kind: Kind) -> usize {
    app.background.in_flight.count(kind)
}

fn message(app: &App) -> Option<String> {
    app.ctx.notify.current().map(|shown| shown.text.clone())
}

fn no_risk() -> DeletionRisk {
    DeletionRisk {
        consequence: Consequence::Nothing,
        losses: Vec::new(),
        removals: Vec::new(),
        retained: None,
        aftermath: None,
    }
}

fn risk_of(consequence: Consequence) -> DeletionRisk {
    DeletionRisk {
        consequence,
        losses: vec!["2 uncommitted files".to_string()],
        ..no_risk()
    }
}

fn typed(app: &mut App, text: &str) {
    for c in text.chars() {
        app.handle_key(ch(c));
    }
}

// --- scans, re-reads, fetches ----------------------------------------------

#[test]
fn construction_walks_no_repos_dir() {
    let app = app(args());
    assert!(
        !app.is_scanning(),
        "nothing can be scanning without a worker"
    );
    assert_eq!(app.scan_roots.len(), 1, "the root was not kept for later");
    assert_eq!(app.scan_found, 0, "a repository was opened before the loop");
}

#[test]
fn attaching_a_worker_starts_one_scan_per_root() {
    let mut args = args();
    args.repos_dirs.push("/elsewhere".to_string());
    let app = with_worker(args);
    assert_eq!(
        count(&app, Kind::Scan),
        2,
        "one scan per configured repos dir"
    );
    assert!(app.is_scanning());
}

#[test]
fn run_fetch_becomes_a_job_per_repository() {
    let mut args = args();
    args.run_fetch = true;
    let mut app = with_worker(args);
    // Only the scan so far: no remote has been talked to.
    assert_eq!(app.background.in_flight.len(), 1);

    let result = next_result(&mut app);
    app.handle_job(result);

    assert!(!app.is_scanning(), "the scan never finished");
    assert_eq!(
        app.background.in_flight.len(),
        2,
        "the fetches were never queued"
    );
}

#[test]
fn the_list_is_populated_by_the_scan() {
    let mut app = with_worker(args());
    assert!(app.is_scanning(), "the spinner must be running");
    let result = next_result(&mut app);
    app.handle_job(result);
    assert!(!app.is_scanning());
    assert_eq!(app.scan_found, 2, "both repositories should have arrived");
}

#[test]
fn a_scan_the_app_stopped_waiting_for_puts_nothing_on_screen() {
    let mut app = with_worker(args());
    // Given up only after the result was produced.
    let result = next_result(&mut app);
    app.background.abandon(result.id);
    app.handle_job(result);
    assert_eq!(app.scan_found, 0, "a stale scan result was applied");
    assert!(!app.is_scanning());
}

fn a_fetch(app: &mut App) -> JobId {
    app.background
        .submit(
            Job::FetchRemotes {
                path: "/repos/one".to_string(),
            },
            TrackedJob::Fetch("/repos/one".to_string()),
        )
        .expect("a worker is attached")
}

#[test]
fn a_failed_job_becomes_a_message() {
    let mut app = app_with_worker();
    let id = a_fetch(&mut app);
    app.handle_job(JobResult {
        id,
        kind: JobKind::FetchRemotes,
        outcome: Err("no such remote".to_string()),
    });
    let shown = message(&app).expect("the failure is on screen");
    assert_eq!(shown, "fetch failed: no such remote");
    assert_eq!(
        app.ctx.notify.current().map(|shown| shown.severity),
        Some(Severity::Error)
    );
}

#[test]
fn a_result_the_app_stopped_waiting_for_is_dropped() {
    let mut app = app_with_worker();
    let id = a_fetch(&mut app);
    app.background.abandon(id);
    app.handle_job(JobResult {
        id,
        kind: JobKind::FetchRemotes,
        outcome: Err("far too late".to_string()),
    });
    assert!(message(&app).is_none(), "a stale result was applied");
}

#[test]
fn a_landed_fetch_re_reads_the_repository_it_fetched() {
    let mut app = scanned(args());
    a_fetch(&mut app);
    let result = next_result(&mut app);
    app.handle_job(result);
    assert_eq!(
        count(&app, Kind::Refresh),
        1,
        "the fetch queued no re-read of its repository"
    );
    app.on_tick();
    assert_eq!(
        count(&app, Kind::Refresh),
        1,
        "a tick re-read the list itself"
    );

    // And the re-read itself lands without disturbing anything else.
    let result = next_result(&mut app);
    app.handle_job(result);
    assert!(app.background.in_flight.is_empty());
    assert!(message(&app).is_none());
}

#[test]
fn refreshing_asks_every_known_repository_again() {
    let mut app = scanned(args());
    app.handle_key(ch('r'));
    assert_eq!(count(&app, Kind::Refresh), 2, "one re-read per repository");
    assert!(!app.is_scanning(), "a refresh must not claim to be a scan");
}

#[test]
fn a_second_refresh_abandons_the_first() {
    let mut app = scanned(args());
    app.handle_key(ch('r'));
    let first = app.background.in_flight.ids(Kind::Refresh);
    app.handle_key(ch('r'));
    assert_eq!(
        count(&app, Kind::Refresh),
        2,
        "the second round never started"
    );
    for id in first {
        assert!(
            !app.background.in_flight.contains(id),
            "its answer is still wanted"
        );
    }
}

#[test]
fn refreshing_during_a_scan_does_nothing() {
    let mut app = with_worker(args());
    assert!(app.is_scanning(), "this must be tested mid-scan");
    app.handle_key(ch('r'));
    assert_eq!(count(&app, Kind::Refresh), 0, "a refresh raced the scan");
}

#[test]
fn rescanning_walks_the_repos_dirs_again() {
    let mut app = scanned(args());
    assert!(!app.is_scanning());
    app.handle_key(ch('R'));
    assert_eq!(
        count(&app, Kind::Scan),
        1,
        "the repos dir was not walked again"
    );
    assert!(app.is_scanning(), "the spinner must say so");
    assert_eq!(app.scan_found, 0, "a rescan counts from zero");
}

#[test]
fn fetching_the_same_repository_twice_queues_one_job() {
    let mut app = with_space();
    app.handle_key(ch('f'));
    assert_eq!(count(&app, Kind::Fetch), 1, "the fetch was never queued");
    app.handle_key(ch('f'));
    assert_eq!(
        count(&app, Kind::Fetch),
        1,
        "the same repository was fetched twice"
    );
}

/// A repository that has left the list is not put back by a late re-read.
#[test]
fn a_late_re_read_brings_no_repository_back() {
    let mut app = scanned(args());
    let id = app
        .background
        .submit(
            Job::SpaceStatus {
                path: "/repos/gone".to_string(),
            },
            TrackedJob::Refresh,
        )
        .expect("a worker is attached");
    app.handle_job(JobResult {
        id,
        kind: JobKind::SpaceStatus,
        outcome: Ok(Completion::Spaces {
            path: "/repos/gone".to_string(),
            spaces: vec![space(&repo("gone"), "feature")],
        }),
    });
    assert!(app.ctx.worktrees.spaces.is_empty());
    assert!(app
        .ctx
        .repositories
        .repository(&RepoId::from_path("/repos/gone"))
        .is_none());
}

/// What a scan could not list is said, and what it could is on show.
#[test]
fn a_scan_names_what_it_could_not_list() {
    let mut app = with_worker(args());
    let task = app.background.next_job().expect("the scan waits");
    app.handle_job(JobResult {
        id: task.id,
        kind: JobKind::ScanRepositories,
        outcome: Ok(Completion::Repositories(vec![
            Listing {
                repo: repo("one"),
                spaces: Ok(vec![space(&repo("one"), "feature")]),
            },
            Listing {
                repo: repo("two"),
                spaces: Err("corrupt index".to_string()),
            },
        ])),
    });
    assert_eq!(app.scan_found, 2);
    assert_eq!(app.ctx.worktrees.spaces.len(), 1);
    let shown = message(&app).expect("the failure is on screen");
    assert!(shown.contains("two"), "{shown}");
}

// --- keys ------------------------------------------------------------------

#[test]
fn quitting_works_in_every_layer() {
    let quit = KeyEvent {
        code: KeyCode::Char('c'),
        modifiers: KeyModifiers::Control,
    };
    let mut app = with_space();
    assert_eq!(
        app.handle_event(AppEvent::Key(quit)),
        Some(Outcome::Quit)
    );
    app.handle_key(ch('p'));
    assert_eq!(
        app.handle_event(AppEvent::Key(quit)),
        Some(Outcome::Quit)
    );
}

#[test]
fn enter_ends_the_session_on_the_selected_space() {
    let mut app = with_space();
    let outcome = app
        .handle_event(AppEvent::Key(key(KeyCode::Enter)))
        .expect("the session ends");
    assert_eq!(outcome, Outcome::Selected("/spaces/one/feature".to_string()));
    assert_eq!(output(&outcome).as_deref(), Some("/spaces/one/feature\n"));
    assert_eq!(output(&Outcome::Quit), None);
}

#[test]
fn help_is_a_toggle() {
    let mut app = with_space();
    app.handle_key(ch('?'));
    assert!(matches!(app.modals.last(), Some(Modal::Help(_))));
    app.handle_key(ch('?'));
    assert!(app.modals.is_empty());
}

#[test]
fn a_popup_closes_back_to_the_mode_beneath() {
    let mut app = with_space();
    app.handle_key(ch('p'));
    assert_eq!(app.effective_mode(), InputMode::Insert);
    app.handle_key(key(KeyCode::Esc));
    assert!(app.modals.is_empty());
    assert_eq!(app.effective_mode(), InputMode::Normal);
}

#[test]
fn a_paste_types_and_never_presses_enter() {
    let mut app = with_space();
    // In the list a paste is no command.
    app.handle_paste("q\n");
    assert!(app.modals.is_empty());

    app.handle_key(ch('p'));
    app.handle_paste("https://github.com/acme/one/pull/7\n");
    let Some(Modal::PrWorktree(prompt)) = app.modals.last() else {
        panic!("the prompt went away");
    };
    assert_eq!(prompt.input, "https://github.com/acme/one/pull/7");
    assert!(app.background.in_flight.is_empty());
}

// --- deletion --------------------------------------------------------------

#[test]
fn deleting_asks_what_it_would_cost_first() {
    let mut app = with_space();
    app.handle_key(ch('d'));
    assert_eq!(
        app.ctx.effects,
        vec![Effect::AssessDeletion {
            space: space(&repo("one"), "feature"),
            owner: Some(repo("one")),
            forced: false,
        }]
    );
    app.ctx.effects.clear();

    // Nothing is at risk, and the question is asked all the same.
    app.risk_assessed(&space(&repo("one"), "feature"), no_risk(), false);
    assert!(app.ctx.effects.is_empty());
    app.handle_key(key(KeyCode::Enter));
    assert!(app.modals.is_empty());
    assert!(matches!(
        app.ctx.effects.as_slice(),
        [Effect::DeleteSpace(_)]
    ));

    app.space_deleted("/spaces/one/feature", Ok(()));
    assert!(app.ctx.worktrees.spaces.is_empty());
}

#[test]
fn forcing_a_deletion_skips_the_question_and_never_the_guard() {
    let mut app = with_space();
    app.handle_key(ch('D'));
    app.ctx.effects.clear();

    app.risk_assessed(
        &space(&repo("one"), "feature"),
        risk_of(Consequence::RecoverableLoss),
        true,
    );
    assert!(app.ctx.effects.is_empty(), "a guarded space was deleted");
    let Some(Modal::Confirm(dialog)) = app.modals.last() else {
        panic!("nobody was asked");
    };
    assert_eq!(dialog.gate, Gate::Override);
    // The key that is pressed without reading does not open it.
    app.handle_key(key(KeyCode::Enter));
    assert!(app.ctx.effects.is_empty());
    app.handle_key(ch('X'));
    assert_eq!(app.ctx.effects.len(), 1);

    let mut app = with_space();
    app.risk_assessed(&space(&repo("one"), "feature"), no_risk(), true);
    assert!(app.modals.is_empty());
    assert_eq!(app.ctx.effects.len(), 1);
}

#[test]
fn a_permanent_loss_wants_the_name_typed() {
    let mut app = with_space();
    app.risk_assessed(
        &space(&repo("one"), "feature"),
        risk_of(Consequence::PermanentLoss),
        false,
    );
    typed(&mut app, "featur");
    app.handle_key(key(KeyCode::Enter));
    assert!(app.ctx.effects.is_empty());
    typed(&mut app, "e");
    app.handle_key(key(KeyCode::Enter));
    assert_eq!(app.ctx.effects.len(), 1);
}

#[test]
fn a_failed_deletion_keeps_the_row() {
    let mut app = with_space();
    app.space_deleted("/spaces/one/feature", Err("busy".to_string()));
    assert_eq!(app.ctx.worktrees.spaces.len(), 1);
    assert!(message(&app).expect("the failure is shown").contains("busy"));
}

// --- creation --------------------------------------------------------------

#[test]
fn a_named_space_is_asked_for_and_shown_once_it_is_there() {
    let mut app = scanned(args());
    app.handle_key(ch('n'));
    app.handle_key(key(KeyCode::Enter));
    assert!(matches!(app.modals.last(), Some(Modal::CreateWorktree(_))));
    app.ctx.effects.clear();

    typed(&mut app, "topic");
    let resolves: Vec<&Effect> = app
        .ctx
        .effects
        .iter()
        .filter(|effect| matches!(effect, Effect::ResolveBase { .. }))
        .collect();
    assert_eq!(
        resolves.last(),
        Some(&&Effect::ResolveBase {
            repo: repo("one"),
            name: "topic".to_string(),
        })
    );
    app.base_resolved("topic", Backend::Git, "from main".to_string());
    let Some(Modal::CreateWorktree(prompt)) = app.modals.last() else {
        panic!("the prompt went away");
    };
    assert_eq!(prompt.base_branch_hint.as_deref(), Some("from main"));
    // A hint for a name that is no longer there is not taken in.
    app.base_resolved("topi", Backend::Git, "from HEAD".to_string());
    let Some(Modal::CreateWorktree(prompt)) = app.modals.last() else {
        panic!("the prompt went away");
    };
    assert_eq!(prompt.base_branch_hint.as_deref(), Some("from main"));

    app.ctx.effects.clear();
    app.handle_key(key(KeyCode::Enter));
    assert!(app.modals.is_empty());
    assert_eq!(
        app.ctx.effects,
        vec![Effect::CreateSpace(Creation {
            repo: repo("one"),
            name: "topic".to_string(),
            pr_url: None,
            merged: false,
            notice: None,
        })]
    );
    let Some(Effect::CreateSpace(creation)) = app.ctx.effects.pop() else {
        panic!("nothing was asked for");
    };
    app.space_created(creation, Ok(space(&repo("one"), "topic")));
    assert_eq!(
        app.ctx.worktrees.selected_worktree_path().as_deref(),
        Some("/spaces/one/topic")
    );
}

#[test]
fn a_creation_that_fails_says_why() {
    let mut app = scanned(args());
    app.space_created(
        Creation {
            repo: repo("one"),
            name: "topic".to_string(),
            pr_url: None,
            merged: false,
            notice: None,
        },
        Err("the disk is full".to_string()),
    );
    assert!(app.ctx.worktrees.spaces.is_empty());
    assert!(message(&app)
        .expect("the failure is shown")
        .contains("the disk is full"));
}

#[test]
fn a_created_space_runs_its_hooks() {
    let hooks = HookSettings::from_config(
        Config {
            hooks: Hooks {
                copy: Vec::new(),
                run: vec!["exit 1".to_string()],
            },
            ..Config::default()
        },
        None,
    );
    let mut app = scanned(args().with_hooks(hooks));
    app.space_created(
        Creation {
            repo: repo("one"),
            name: "topic".to_string(),
            pr_url: None,
            merged: false,
            notice: None,
        },
        Ok(space(&repo("one"), "topic")),
    );
    let task = app.background.next_job().expect("the hooks are queued");
    let Job::RunHooks { plan } = task.job else {
        panic!("another job was queued");
    };
    let report: HookReport = plan.run(vec![StepResult::Exited {
        code: 1,
        stdout: Vec::new(),
        stderr: Vec::new(),
    }]);
    assert!(app.background.finish(task.id));
    app.handle_job(JobResult {
        id: task.id,
        kind: JobKind::RunHooks,
        outcome: Ok(Completion::HooksRan(report)),
    });
    let shown = message(&app).expect("a failing hook is told");
    assert!(shown.starts_with("Hook failed for topic"), "{shown}");
}

// --- pull requests ---------------------------------------------------------

/// The prompt with a URL of the repository `name` in it, submitted.
fn looked_up(app: &mut App, name: &str) -> JobId {
    app.handle_key(ch('p'));
    app.handle_paste(&format!("https://github.com/acme/{name}/pull/7"));
    app.handle_key(key(KeyCode::Enter));
    let task = app.background.next_job().expect("the lookup is queued");
    assert_eq!(
        task.job,
        Job::FetchPullRequest {
            url: PrUrl {
                owner: "acme".to_string(),
                repo: name.to_string(),
                number: 7,
            }
        }
    );
    task.id
}

fn pr_answer(id: JobId, outcome: Result<PrInfo, String>) -> JobResult {
    JobResult {
        id,
        kind: JobKind::FetchPullRequest,
        outcome: outcome.map(Completion::PullRequest),
    }
}

fn open_pr() -> PrInfo {
    PrInfo {
        branch_name: "topic".to_string(),
        is_merged: false,
    }
}

#[test]
fn a_failed_lookup_reopens_the_prompt_with_what_was_typed() {
    let mut app = scanned(args());
    let id = looked_up(&mut app, "one");
    app.handle_job(pr_answer(id, Err("not found".to_string())));
    let Some(Modal::PrWorktree(prompt)) = app.modals.last() else {
        panic!("the prompt went away");
    };
    assert_eq!(prompt.input, "https://github.com/acme/one/pull/7");
    assert!(prompt
        .error
        .as_deref()
        .expect("the reason is shown")
        .contains("not found"));
}

#[test]
fn leaving_a_wait_gives_the_lookup_up() {
    let mut app = scanned(args());
    let id = looked_up(&mut app, "one");
    app.handle_key(key(KeyCode::Esc));
    assert!(app.modals.is_empty());
    assert!(!app.background.in_flight.contains(id));
    app.handle_job(pr_answer(id, Ok(open_pr())));
    assert!(app.modals.is_empty(), "a late answer opened a popup");
}

#[test]
fn a_pull_request_of_a_known_repository_names_its_branch() {
    let mut app = scanned(args());
    let id = looked_up(&mut app, "one");
    app.handle_job(pr_answer(id, Ok(open_pr())));
    let Some(Modal::CreateWorktree(prompt)) = app.modals.last() else {
        panic!("nothing was offered: {:?}", app.modals);
    };
    assert_eq!(prompt.new_worktree_name, "topic");
}

#[test]
fn without_a_pool_nothing_waits() {
    let mut app = app(args());
    app.handle_key(ch('p'));
    app.handle_paste("https://github.com/acme/one/pull/7");
    app.handle_key(key(KeyCode::Enter));
    assert!(app.background.in_flight.is_empty());
    assert!(app.modals.is_empty());
    assert_eq!(message(&app).as_deref(), Some(NO_WORKER));
}

// --- the frame -------------------------------------------------------------

#[test]
fn a_frame_shows_the_list_and_every_popup_over_it() {
    let mut app = with_space();
    app.handle_key(ch('p'));
    app.handle_key(key(KeyCode::F(1)));
    let full = Rect {
        x: 0,
        y: 0,
        width: 100,
        height: 30,
    };
    let frame = app.draw(full, &Theme::tokyo_night());
    assert_eq!(frame.popups.len(), 2);
    assert!(matches!(frame.popups[0], Drawing::Prompt(Some(_))));
    assert!(matches!(frame.popups[1], Drawing::Help(Some(_))));
}

// --- events ----------------------------------------------------------------

#[test]
fn a_key_counts_once_on_its_press() {
    let j = ch('j');
    assert_eq!(
        forwarded(Input::Key(j, KeyEventKind::Press)),
        Some(AppEvent::Key(j))
    );
    assert_eq!(forwarded(Input::Key(j, KeyEventKind::Release)), None);
    assert_eq!(forwarded(Input::Key(j, KeyEventKind::Repeat)), None);
    assert_eq!(forwarded(Input::Resize), None);
    assert_eq!(forwarded(Input::Other), None);
    assert_eq!(
        forwarded(Input::Paste("x".to_string())),
        Some(AppEvent::Paste("x".to_string()))
    );
}

#[test]
fn only_a_key_ends_a_session() {
    let mut app = with_space();
    assert_eq!(app.handle_event(AppEvent::Tick), None);
    assert_eq!(
        app.handle_event(AppEvent::Paste("q".to_string())),
        None
    );
    app.handle_key(ch('r'));
    let result = next_result(&mut app);
    assert_eq!(app.handle_event(AppEvent::Job(result)), None);
}

#[test]
fn a_message_goes_away_with_time() {
    let mut app = app_with_worker();
    app.set_time(100);
    let id = a_fetch(&mut app);
    app.handle_job(JobResult {
        id,
        kind: JobKind::FetchRemotes,
        outcome: Err("no such remote".to_string()),
    });
    app.on_tick();
    assert!(message(&app).is_some());
    app.set_time(100 + VISIBLE_FOR);
    app.on_tick();
    assert!(message(&app).is_none());
}
