use shanti::config::{Config, Hooks, RepoConfig, RepoEntry};
use shanti::hooks::{
    is_inside, run_and_log, tail, HookOutcome, HookPlan, HookReport, HookSettings, HookStep,
    HookTarget, StepResult, MAX_CAPTURED_OUTPUT,
};
use shanti::vcs::Backend;

const REPO: &str = "/work/repos/shanti";
const SPACE: &str = "/work/spaces/shanti/feature";

fn target() -> HookTarget {
    HookTarget {
        space_path: SPACE.to_string(),
        space_name: "feature".to_string(),
        repo_path: REPO.to_string(),
        repo_name: "shanti".to_string(),
        backend: Backend::Git,
    }
}

fn strings(items: &[&str]) -> Vec<String> {
    items.iter().map(|item| item.to_string()).collect()
}

fn plan(copies: &[&str], commands: &[&str]) -> HookPlan {
    HookPlan {
        target: target(),
        copies: strings(copies),
        commands: strings(commands),
    }
}

fn hooks(copy: &[&str], run: &[&str]) -> Hooks {
    Hooks {
        copy: strings(copy),
        run: strings(run),
    }
}

fn entry(key: &str, run: &[&str]) -> RepoEntry {
    RepoEntry {
        key: key.to_string(),
        config: RepoConfig {
            hooks: hooks(&[], run),
        },
    }
}

fn exited(code: i32) -> StepResult {
    StepResult::Exited {
        code,
        stdout: Vec::new(),
        stderr: Vec::new(),
    }
}

fn copy_step(path: &str) -> HookStep {
    HookStep::Copy {
        path: path.to_string(),
        from: format!("{REPO}/{path}"),
        to: format!("{SPACE}/{path}"),
    }
}

/// Hooks must be off unless the user turned them on.
#[test]
fn hooks_do_nothing_without_configuration() {
    let settings = HookSettings::from_config(Config::default(), None);
    let plan = settings.plan(target());
    assert!(plan.is_empty());
    assert!(plan.run(Vec::new()).outcomes.is_empty());
}

#[test]
fn a_command_that_succeeds_is_reported_as_ran() {
    let report = plan(&[], &["exit 0"]).run(vec![StepResult::Succeeded]);
    assert_eq!(
        report.outcomes,
        vec![HookOutcome::Ran {
            command: "exit 0".to_string()
        }]
    );
    assert!(!report.failed());
    assert_eq!(report.summary(), None);
}

/// The failure policy: the output is kept, and the user is told.
#[test]
fn a_command_that_fails_keeps_its_output_and_leaves_the_space_alone() {
    let report = plan(&[], &["echo out; echo boom >&2; exit 3"]).run(vec![StepResult::Exited {
        code: 3,
        stdout: b"out\n".to_vec(),
        stderr: b"boom\n".to_vec(),
    }]);

    let HookOutcome::Failed { status, output, .. } = &report.outcomes[0] else {
        panic!("expected a failure, got {:?}", report.outcomes);
    };
    assert_eq!(status, "exit status 3");
    assert_eq!(output, "out\nboom\n");

    assert!(report.failed());
    let summary = report.summary().expect("a failure has a summary");
    assert!(summary.contains("feature"), "{summary}");
    assert!(summary.contains("intact"), "{summary}");
    assert_eq!(
        summary,
        "Hook failed for feature: echo out; echo boom >&2; exit 3 \u{2014} \
         the worktree was created and is intact"
    );
}

/// A command naming a program that is not installed is a reported failure.
#[test]
fn a_command_that_does_not_exist_is_a_reported_failure() {
    let report = plan(&[], &["shanti-definitely-not-a-real-program"]).run(vec![exited(127)]);
    assert!(report.failed(), "{:?}", report.outcomes);
    let report = plan(&[], &["true"]).run(vec![StepResult::NotStarted {
        error: "no shell".to_string(),
    }]);
    assert_eq!(
        report.outcomes,
        vec![HookOutcome::Failed {
            command: "true".to_string(),
            status: "could not start".to_string(),
            output: "no shell".to_string(),
        }]
    );
}

#[test]
fn a_command_ended_by_a_signal_says_so() {
    let report = plan(&[], &["sleep 9"]).run(vec![StepResult::Signalled {
        status: "signal: 9 (SIGKILL)".to_string(),
        stdout: b"half".to_vec(),
        stderr: Vec::new(),
    }]);
    assert_eq!(
        report.outcomes,
        vec![HookOutcome::Failed {
            command: "sleep 9".to_string(),
            status: "terminated by a signal (signal: 9 (SIGKILL))".to_string(),
            output: "half".to_string(),
        }]
    );
}

/// Later hooks still run after an earlier one fails.
#[test]
fn a_failing_hook_does_not_stop_the_ones_after_it() {
    let plan = plan(&[], &["exit 1", "exit 0"]);
    assert_eq!(
        plan.steps(),
        vec![
            HookStep::Run {
                command: "exit 1".to_string()
            },
            HookStep::Run {
                command: "exit 0".to_string()
            },
        ]
    );
    let report = plan.run(vec![exited(1), StepResult::Succeeded]);
    assert!(matches!(report.outcomes[0], HookOutcome::Failed { .. }));
    assert!(matches!(report.outcomes[1], HookOutcome::Ran { .. }));
}

/// The documented interface. Other people's hooks depend on these exact names.
#[test]
fn a_command_is_given_every_documented_value() {
    let env = target().env();
    assert_eq!(
        env,
        vec![
            ("SHANTI_SPACE_PATH", SPACE.to_string()),
            ("SHANTI_SPACE_NAME", "feature".to_string()),
            ("SHANTI_REPO_PATH", REPO.to_string()),
            ("SHANTI_REPO_NAME", "shanti".to_string()),
            ("SHANTI_BACKEND", "git".to_string()),
        ]
    );
}

#[test]
fn the_backend_reaches_the_hook_as_its_label() {
    let mut target = target();
    target.backend = Backend::Jj;
    let env = target.env();
    assert!(env.contains(&("SHANTI_BACKEND", "jj".to_string())));
}

/// A name with a shell metacharacter stays data: it travels in the environment
/// and the command is what the user wrote.
#[test]
fn values_cannot_be_smuggled_into_the_command() {
    let mut target = target();
    target.space_name = "feature; touch pwned".to_string();
    let plan = HookPlan {
        target,
        copies: vec![],
        commands: vec!["echo \"$SHANTI_SPACE_NAME\" > name".to_string()],
    };
    assert_eq!(
        plan.steps(),
        vec![HookStep::Run {
            command: "echo \"$SHANTI_SPACE_NAME\" > name".to_string()
        }]
    );
    assert!(plan
        .target
        .env()
        .contains(&("SHANTI_SPACE_NAME", "feature; touch pwned".to_string())));
    assert!(!plan.run(vec![StepResult::Succeeded]).failed());
}

#[test]
fn a_copy_carries_an_ignored_file_into_the_space() {
    let plan = plan(&[".env"], &[]);
    assert_eq!(plan.steps(), vec![copy_step(".env")]);
    let report = plan.run(vec![StepResult::Copied]);
    assert_eq!(
        report.outcomes,
        vec![HookOutcome::Copied {
            path: ".env".to_string()
        }]
    );
}

#[test]
fn a_copy_creates_the_directories_it_needs() {
    let plan = plan(&[".vscode/settings.json"], &[]);
    assert_eq!(plan.steps(), vec![copy_step(".vscode/settings.json")]);
    let report = plan.run(vec![StepResult::Copied]);
    assert!(!report.failed(), "{:?}", report.outcomes);
}

#[test]
fn a_missing_source_is_skipped_not_failed() {
    let report = plan(&[".env"], &[]).run(vec![StepResult::SourceMissing]);
    assert!(!report.failed());
    assert_eq!(
        report.outcomes[0],
        HookOutcome::CopySkipped {
            path: ".env".to_string(),
            reason: "not present in the repository".to_string(),
        }
    );
}

#[test]
fn a_copy_that_escapes_the_repository_is_refused() {
    let plan = plan(&["../secrets", "/etc/hosts"], &[]);
    assert_eq!(
        plan.steps(),
        vec![
            HookStep::Refuse {
                path: "../secrets".to_string()
            },
            HookStep::Refuse {
                path: "/etc/hosts".to_string()
            },
        ]
    );
    // Whatever the runner says of a refused step, it stays refused.
    let report = plan.run(vec![StepResult::Copied, StepResult::SourceMissing]);
    assert_eq!(report.failures().len(), 2);
}

#[test]
fn only_plain_relative_paths_stay_inside() {
    assert!(is_inside(".env"));
    assert!(is_inside("a/b"));
    assert!(!is_inside("a/../b"));
    assert!(!is_inside(".."));
    assert!(!is_inside("/a"));
}

#[test]
fn a_directory_is_refused_with_a_reason() {
    let report = plan(&["node_modules"], &[]).run(vec![StepResult::SourceIsDirectory]);
    let HookOutcome::CopyFailed { error, .. } = &report.outcomes[0] else {
        panic!("expected a refusal, got {:?}", report.outcomes);
    };
    assert!(error.contains("directory"), "{error}");
}

#[test]
fn a_copy_that_cannot_be_done_keeps_its_reason() {
    let report = plan(&[".env"], &[]).run(vec![StepResult::CopyFailed {
        error: "Permission denied".to_string(),
    }]);
    assert_eq!(
        report.outcomes,
        vec![HookOutcome::CopyFailed {
            path: ".env".to_string(),
            error: "Permission denied".to_string(),
        }]
    );
}

/// Copies come first because a command usually depends on what they brought.
#[test]
fn copies_run_before_commands() {
    let plan = plan(&[".env"], &["test -f .env"]);
    assert_eq!(
        plan.steps(),
        vec![
            copy_step(".env"),
            HookStep::Run {
                command: "test -f .env".to_string()
            },
        ]
    );
    let report = plan.run(vec![StepResult::Copied, StepResult::Succeeded]);
    assert!(!report.failed(), "{:?}", report.outcomes);
}

#[test]
fn global_hooks_apply_to_every_repository() {
    let settings = HookSettings::from_config(
        Config {
            hooks: hooks(&[".envrc"], &["direnv allow"]),
            ..Config::default()
        },
        None,
    );
    let plan = settings.plan(target());
    assert_eq!(plan.copies, vec![".envrc".to_string()]);
    assert_eq!(plan.commands, vec!["direnv allow".to_string()]);
}

/// The general list first, the repository's own after.
#[test]
fn repository_hooks_are_appended_to_the_global_ones() {
    let settings = HookSettings::from_config(
        Config {
            hooks: hooks(&[], &["direnv allow"]),
            repos: vec![entry("shanti", &["cargo fetch"])],
            ..Config::default()
        },
        None,
    );
    assert_eq!(
        settings.plan(target()).commands,
        vec!["direnv allow".to_string(), "cargo fetch".to_string()]
    );
}

#[test]
fn another_repositorys_hooks_are_not_run() {
    let settings = HookSettings::from_config(
        Config {
            repos: vec![entry("other", &["should not run"])],
            ..Config::default()
        },
        None,
    );
    assert!(settings.plan(target()).is_empty());
}

/// Two checkouts can share a directory name, so a path key has to work, and to
/// be additive with the name key rather than shadowed by it.
#[test]
fn a_repository_can_be_keyed_by_its_path() {
    let settings = HookSettings::from_config(
        Config {
            repos: vec![entry(REPO, &["by path"]), entry("shanti", &["by name"])],
            ..Config::default()
        },
        None,
    );
    assert_eq!(
        settings.plan(target()).commands,
        vec!["by name".to_string(), "by path".to_string()]
    );
}

/// Disabling happens at plan time, so that a caller can see there is nothing to
/// submit.
#[test]
fn disabled_settings_plan_nothing() {
    let plan = HookSettings::disabled().plan(target());
    assert!(plan.is_empty());
}

#[test]
fn an_empty_skip_variable_switches_nothing_off() {
    let on = HookSettings::from_config(Config::default(), Some(String::new()));
    assert!(on.enabled());
    let off = HookSettings::from_config(
        Config {
            hooks: hooks(&[], &["direnv allow"]),
            ..Config::default()
        },
        Some("1".to_string()),
    );
    assert!(!off.enabled());
    assert!(off.plan(target()).is_empty());
}

#[test]
fn the_counts_tell_what_is_configured() {
    let settings = HookSettings::from_config(
        Config {
            hooks: hooks(&[".env", ".envrc"], &["direnv allow"]),
            repos: vec![entry("shanti", &["cargo fetch"]), entry("other", &[])],
            ..Config::default()
        },
        None,
    );
    let counts = settings.counts();
    assert_eq!(counts.copies, 2);
    assert_eq!(counts.commands, 1);
    assert_eq!(counts.repos, 1);
    assert!(!counts.is_empty());
}

#[test]
fn every_entry_is_found_under_its_key() {
    let settings = HookSettings::from_config(
        Config {
            repos: vec![entry("other", &["make"]), entry(REPO, &["cargo fetch"])],
            ..Config::default()
        },
        None,
    );
    assert_eq!(settings.counts().repos, 2);
    assert_eq!(settings.plan(target()).commands, vec!["cargo fetch"]);
}

#[test]
fn several_failures_are_counted_in_the_summary() {
    let (report, line) = run_and_log(
        &plan(&["/etc/hosts"], &["exit 1", "exit 2", "exit 0"]),
        vec![
            StepResult::SourceMissing,
            exited(1),
            exited(2),
            StepResult::Succeeded,
        ],
    );
    assert_eq!(report.failures().len(), 3);
    assert_eq!(
        line.as_deref(),
        Some(
            "Hook failed for feature: /etc/hosts (and 2 more) \u{2014} \
             the worktree was created and is intact"
        )
    );
}

#[test]
fn output_is_truncated_to_its_tail() {
    let long = vec![b'x'; MAX_CAPTURED_OUTPUT + 100];
    let text = tail(&long);
    assert!(text.starts_with("… (truncated)"));
    assert!(text.len() < MAX_CAPTURED_OUTPUT + 100);
}

#[test]
fn short_output_is_kept_and_bad_bytes_are_replaced() {
    assert_eq!(tail(b"fine"), "fine");
    assert_eq!(tail(&[b'a', 0xff, b'b']), "a\u{fffd}b");
}

fn assert_sendable<T: Send + 'static>() {}

#[test]
fn a_plan_can_move_to_another_thread() {
    assert_sendable::<HookPlan>();
    assert_sendable::<HookReport>();
}
