use shanti::cli::{
    clap_origin, label, resolve, resolve_existing_dir, resolve_repos_dirs, resolve_worktrees_dir,
    Args, Cli, DirProbe, Origin, Sources, ValueSource, WorktreesProbe,
};
use shanti::config::{Backend, Config, Hooks};
use shanti::theme::scheme;

const CONFIG_PATH: &str = "/nonexistent/config.toml";
const MISSING: &str = "No such file or directory (os error 2)";

/// What the user said, in each of the two layers the parser reads.
#[derive(Default)]
struct Said {
    repos_flag: Option<String>,
    worktrees_flag: Option<String>,
    theme_flag: Option<String>,
    run_fetch_flag: bool,
    show_config: bool,
    no_hooks: bool,
    repos_env: Option<String>,
    worktrees_env: Option<String>,
    theme_env: Option<String>,
    skip_env: Option<String>,
}

fn source(flag: bool, env: bool) -> Option<Origin> {
    clap_origin(if flag {
        Some(ValueSource::CommandLine)
    } else if env {
        Some(ValueSource::EnvVariable)
    } else {
        None
    })
}

/// Looks at a directory of the machine these tests describe: everything under
/// `/gone` is missing, everything under `/file` is a file, `~` is `/home/me`.
fn look(dir: &str) -> DirProbe {
    let expanded = dir.replace('~', "/home/me");
    if expanded.starts_with("/gone") {
        DirProbe::CannotOpen {
            expanded,
            error: MISSING.to_string(),
        }
    } else if expanded.starts_with("/file") {
        DirProbe::NotDirectory {
            canonical: expanded,
        }
    } else {
        DirProbe::Found {
            path: expanded.replace("/repos/..", ""),
        }
    }
}

fn resolve_said(said: Said, config: Config) -> Result<(Args, Vec<String>), String> {
    let sources = Sources {
        worktrees_dir: source(said.worktrees_flag.is_some(), said.worktrees_env.is_some()),
        repos_dirs: source(said.repos_flag.is_some(), said.repos_env.is_some()),
        run_fetch: if said.run_fetch_flag {
            clap_origin(Some(ValueSource::CommandLine))
        } else {
            clap_origin(Some(ValueSource::MadeUp))
        },
        theme: source(said.theme_flag.is_some(), said.theme_env.is_some()),
    };
    let repos = said.repos_flag.or(said.repos_env);
    let cli = Cli {
        worktrees_dir: said.worktrees_flag.or(said.worktrees_env),
        repos_dirs: match repos {
            Some(list) => list.split(':').map(str::to_string).collect(),
            None => Vec::new(),
        },
        run_fetch: said.run_fetch_flag,
        theme: said.theme_flag.or(said.theme_env),
        show_config: said.show_config,
        no_hooks: said.no_hooks,
    };
    let chosen = resolve(
        cli,
        sources,
        config,
        CONFIG_PATH.to_string(),
        said.skip_env,
    )?;
    let worktrees = resolve_worktrees_dir(
        WorktreesProbe::Made {
            probe: look(&chosen.worktrees_dir),
        },
        &label("--worktrees-dir", chosen.origins.worktrees_dir),
    )?;
    let repos = resolve_repos_dirs(
        chosen.repos_dirs.iter().map(|dir| look(dir)).collect(),
        &label("--repos-dir", chosen.origins.repos_dirs),
    )?;
    Ok((chosen.into_args(worktrees, repos.dirs), repos.skipped))
}

fn resolve_with(said: Said, config: Config) -> Result<Args, String> {
    resolve_said(said, config).map(|(args, _)| args)
}

fn config_with(repos: &[&str], worktrees: &str) -> Config {
    Config {
        repos_dirs: repos.iter().map(|dir| dir.to_string()).collect(),
        worktrees_dir: Some(worktrees.to_string()),
        ..Config::default()
    }
}

fn config_and_theme(theme: &str) -> Config {
    Config {
        theme: Some(theme.to_string()),
        ..config_with(&["/dir"], "/dir")
    }
}

fn said(text: &str) -> Option<String> {
    Some(text.to_string())
}

fn strings(items: &[&str]) -> Vec<String> {
    items.iter().map(|item| item.to_string()).collect()
}

// --- precedence, one pair per test -----------------------------------------

#[test]
fn config_file_beats_the_built_in_default() {
    let args = resolve_with(Said::default(), config_with(&["/dir"], "/dir")).unwrap();
    assert_eq!(args.origins.repos_dirs, Origin::ConfigFile);
    assert_eq!(args.origins.worktrees_dir, Origin::ConfigFile);
    assert_eq!(args.repos_dirs, strings(&["/dir"]));
}

#[test]
fn a_flag_beats_the_config_file() {
    let args = resolve_with(
        Said {
            repos_flag: said("/flag"),
            worktrees_flag: said("/flag"),
            ..Said::default()
        },
        config_with(&["/config"], "/config"),
    )
    .unwrap();
    assert_eq!(args.origins.repos_dirs, Origin::CommandLine);
    assert_eq!(args.repos_dirs, strings(&["/flag"]));
    assert_eq!(args.worktrees_dir, "/flag");
}

#[test]
fn the_environment_beats_the_config_file() {
    let args = resolve_with(
        Said {
            repos_env: said("/env"),
            worktrees_env: said("/env"),
            ..Said::default()
        },
        config_with(&["/config"], "/config"),
    )
    .unwrap();
    assert_eq!(args.origins.repos_dirs, Origin::Environment);
    assert_eq!(args.repos_dirs, strings(&["/env"]));
}

#[test]
fn a_flag_beats_the_environment() {
    let args = resolve_with(
        Said {
            repos_flag: said("/flag"),
            repos_env: said("/env"),
            worktrees_env: said("/env"),
            ..Said::default()
        },
        Config::default(),
    )
    .unwrap();
    assert_eq!(args.origins.repos_dirs, Origin::CommandLine);
    assert_eq!(args.repos_dirs, strings(&["/flag"]));
    // The setting the flag did not cover still comes from the environment.
    assert_eq!(args.origins.worktrees_dir, Origin::Environment);
}

/// The parser always produces a value for a flag; one it made up must not beat
/// the configuration file.
#[test]
fn a_clap_default_does_not_beat_the_config_file() {
    let config = Config {
        run_fetch: true,
        ..config_with(&["/dir"], "/dir")
    };
    let args = resolve_with(Said::default(), config).unwrap();
    assert!(args.run_fetch);
    assert_eq!(args.origins.run_fetch, Origin::ConfigFile);
}

#[test]
fn the_run_fetch_flag_beats_the_config_file() {
    let args = resolve_with(
        Said {
            run_fetch_flag: true,
            ..Said::default()
        },
        config_with(&["/dir"], "/dir"),
    )
    .unwrap();
    assert!(args.run_fetch);
    assert_eq!(args.origins.run_fetch, Origin::CommandLine);
}

#[test]
fn an_empty_environment_variable_falls_through_to_the_config_file() {
    let args = resolve_with(
        Said {
            repos_env: said(""),
            worktrees_env: said(""),
            ..Said::default()
        },
        config_with(&["/dir"], "/dir"),
    )
    .unwrap();
    assert_eq!(args.origins.repos_dirs, Origin::ConfigFile);
    assert_eq!(args.origins.worktrees_dir, Origin::ConfigFile);
}

// --- theme, the same four layers -------------------------------------------

#[test]
fn the_theme_defaults_to_the_catalogue_default() {
    let args = resolve_with(Said::default(), config_with(&["/dir"], "/dir")).unwrap();
    assert_eq!(args.theme.name, scheme::DEFAULT);
    assert_eq!(args.origins.theme, Origin::Default);
}

#[test]
fn the_theme_in_the_config_file_beats_the_default() {
    let args = resolve_with(Said::default(), config_and_theme("gruvbox-dark")).unwrap();
    assert_eq!(args.theme.name, "gruvbox-dark");
    assert_eq!(args.origins.theme, Origin::ConfigFile);
}

#[test]
fn the_theme_environment_variable_beats_the_config_file() {
    let args = resolve_with(
        Said {
            theme_env: said("catppuccin-latte"),
            ..Said::default()
        },
        config_and_theme("gruvbox-dark"),
    )
    .unwrap();
    assert_eq!(args.theme.name, "catppuccin-latte");
    assert_eq!(args.origins.theme, Origin::Environment);
}

#[test]
fn the_theme_flag_beats_the_environment() {
    let args = resolve_with(
        Said {
            theme_flag: said("ansi"),
            theme_env: said("catppuccin-latte"),
            ..Said::default()
        },
        config_and_theme("gruvbox-dark"),
    )
    .unwrap();
    assert_eq!(args.theme.name, "ansi");
    assert_eq!(args.origins.theme, Origin::CommandLine);
}

/// An empty variable is not a choice, so it must not shadow the file.
#[test]
fn an_empty_theme_variable_falls_through_to_the_config_file() {
    let args = resolve_with(
        Said {
            theme_env: said(""),
            ..Said::default()
        },
        config_and_theme("gruvbox-dark"),
    )
    .unwrap();
    assert_eq!(args.theme.name, "gruvbox-dark");
    assert_eq!(args.origins.theme, Origin::ConfigFile);
}

#[test]
fn an_unknown_theme_is_a_startup_error_listing_the_valid_ones() {
    let message = resolve_with(
        Said {
            theme_flag: said("dracula"),
            ..Said::default()
        },
        config_with(&["/dir"], "/dir"),
    )
    .unwrap_err();
    assert!(message.contains("--theme"), "{message}");
    assert!(message.contains("dracula"), "{message}");
    for entry in scheme::all() {
        assert!(message.contains(entry.name), "{message}");
    }
}

/// The error points at the layer the user must edit.
#[test]
fn an_unknown_theme_in_the_environment_names_the_environment() {
    let message = resolve_with(
        Said {
            theme_env: said("dracula"),
            ..Said::default()
        },
        config_with(&["/dir"], "/dir"),
    )
    .unwrap_err();
    assert!(message.contains("from the environment"), "{message}");
}

// --- directories, whatever layer they come from -----------------------------

#[test]
fn a_tilde_in_the_config_file_is_expanded() {
    let args = resolve_with(Said::default(), config_with(&["~"], "/dir")).unwrap();
    assert_eq!(args.repos_dirs, strings(&["/home/me"]));
    assert_eq!(
        resolve_existing_dir(DirProbe::NoHome {
            dir: "~/src".to_string(),
            error: "no home directory".to_string(),
        }),
        Err("could not expand '~' in '~/src': no home directory".to_string())
    );
}

#[test]
fn a_config_file_path_is_canonicalised() {
    let args = resolve_with(Said::default(), config_with(&["/dir/repos/../repos"], "/dir")).unwrap();
    assert_eq!(args.repos_dirs, strings(&["/dir/repos"]));
}

#[test]
fn a_worktrees_dir_that_cannot_be_made_is_an_error() {
    let not_made = WorktreesProbe::NotCreated {
        expanded: "/ro/spaces".to_string(),
        error: "Read-only file system".to_string(),
    };
    assert_eq!(
        resolve_worktrees_dir(not_made, &label("--worktrees-dir", Origin::ConfigFile)),
        Err(
            "--worktrees-dir (from the config file): could not create '/ro/spaces': \
             Read-only file system"
                .to_string()
        )
    );
}

#[test]
fn a_path_that_is_no_text_is_rejected() {
    assert_eq!(
        resolve_existing_dir(DirProbe::NotText {
            shown: "/a\u{fffd}".to_string()
        }),
        Err("path is not valid UTF-8: '/a\u{fffd}'".to_string())
    );
}

// --- errors ----------------------------------------------------------------

#[test]
fn a_missing_repos_dir_reports_the_path_and_the_source() {
    let message = resolve_with(Said::default(), config_with(&["/gone/nope"], "/dir")).unwrap_err();
    assert!(message.contains("--repos-dir"), "{message}");
    assert!(message.contains("config file"), "{message}");
    assert!(message.contains("nope"), "{message}");
}

#[test]
fn a_missing_repos_dir_flag_is_reported_as_a_flag() {
    let message = resolve_with(
        Said {
            repos_flag: said("/gone/nope"),
            worktrees_flag: said("/dir"),
            ..Said::default()
        },
        Config::default(),
    )
    .unwrap_err();
    assert!(message.contains("--repos-dir"), "{message}");
    assert!(!message.contains("config file"), "{message}");
}

#[test]
fn no_repos_dir_in_any_layer_is_rejected() {
    let config = Config {
        worktrees_dir: said("/dir"),
        ..Config::default()
    };
    let message = resolve_with(Said::default(), config).unwrap_err();
    assert!(message.contains("--repos-dir"), "{message}");
    assert!(message.contains("SHANTI_REPOS_DIR"), "{message}");
    assert!(message.contains("repos_dirs"), "{message}");
}

#[test]
fn no_worktrees_dir_in_any_layer_is_rejected() {
    let config = Config {
        repos_dirs: strings(&["/dir"]),
        ..Config::default()
    };
    let message = resolve_with(Said::default(), config).unwrap_err();
    assert!(message.contains("--worktrees-dir"), "{message}");
    assert!(message.contains("worktrees_dir"), "{message}");
}

/// A stale entry does not veto the entries that are still there.
#[test]
fn a_missing_entry_in_the_repos_dir_list_is_skipped() {
    let (args, skipped) = resolve_said(
        Said {
            repos_env: said("/gone:/dir"),
            worktrees_env: said("/dir"),
            ..Said::default()
        },
        Config::default(),
    )
    .unwrap();
    assert_eq!(args.repos_dirs, strings(&["/dir"]));
    assert_eq!(args.origins.repos_dirs, Origin::Environment);
    assert_eq!(
        skipped,
        vec![format!("could not open directory '/gone': {MISSING}")]
    );
}

#[test]
fn every_repos_dir_entry_missing_is_rejected_naming_all_of_them() {
    let message = resolve_with(
        Said {
            repos_env: said("/gone-one:/gone-two"),
            worktrees_env: said("/dir"),
            ..Said::default()
        },
        Config::default(),
    )
    .unwrap_err();
    assert!(message.contains("gone-one"), "{message}");
    assert!(message.contains("gone-two"), "{message}");
    assert!(message.contains("from the environment"), "{message}");
    // Every entry is accounted for with its own reason.
    assert_eq!(message.matches("No such file or directory").count(), 2);
}

/// A list tolerates a stale member, but a single directory does not.
#[test]
fn a_single_missing_repos_dir_flag_stays_a_hard_error() {
    let message = resolve_with(
        Said {
            repos_flag: said("/gone"),
            worktrees_flag: said("/dir"),
            ..Said::default()
        },
        Config::default(),
    )
    .unwrap_err();
    assert!(message.contains("gone"), "{message}");
    assert!(message.contains("No such file or directory"), "{message}");
}

#[test]
fn a_file_where_a_repos_dir_is_expected_is_rejected() {
    let message = resolve_with(Said::default(), config_with(&["/file"], "/dir")).unwrap_err();
    assert!(message.contains("is not a directory"), "{message}");
}

// --- hooks -----------------------------------------------------------------

#[test]
fn hooks_are_switched_off_by_the_flag_or_the_variable() {
    let config = || Config {
        hooks: Hooks {
            copy: Vec::new(),
            run: strings(&["direnv allow"]),
        },
        ..config_with(&["/dir"], "/dir")
    };
    let args = resolve_with(Said::default(), config()).unwrap();
    assert!(args.hooks.enabled());
    assert_eq!(args.origins.hooks, Origin::ConfigFile);

    let flag = Said {
        no_hooks: true,
        ..Said::default()
    };
    let args = resolve_with(flag, config()).unwrap();
    assert!(!args.hooks.enabled());
    assert_eq!(args.origins.hooks, Origin::CommandLine);

    let variable = Said {
        skip_env: said("1"),
        ..Said::default()
    };
    let args = resolve_with(variable, config()).unwrap();
    assert!(!args.hooks.enabled());
    assert_eq!(args.origins.hooks, Origin::Environment);
}

// --- reporting -------------------------------------------------------------

#[test]
fn show_config_lists_every_setting_with_its_origin() {
    let config = Config {
        backend: Backend::Jujutsu,
        editor: said("nvim"),
        theme: said("gruvbox-dark"),
        ..config_with(&["/config"], "/config")
    };
    let args = resolve_with(
        Said {
            show_config: true,
            worktrees_flag: said("/flag"),
            ..Said::default()
        },
        config,
    )
    .unwrap();

    assert!(args.show_config);
    let report = args.report(false);
    assert!(report.contains("not found"), "{report}");
    for line in [
        "worktrees_dir  = /flag  (command line)",
        "repos_dirs     = /config  (config file)",
        "run_fetch      = false  (built-in default)",
        "backend        = jujutsu  (config file)",
        "editor         = nvim  (config file)",
        "theme          = gruvbox-dark  (config file)",
    ] {
        assert!(report.contains(line), "{report}");
    }
    assert!(args.report(true).contains("(loaded)"));
}

#[test]
fn the_report_lists_every_repository_directory() {
    let args = resolve_with(Said::default(), config_with(&["/first", "/second"], "/first")).unwrap();
    let report = args.report(true);
    assert!(report.contains("/first"), "{report}");
    assert!(report.contains("/second"), "{report}");
}

/// The precedence order is the contract.
#[test]
fn origins_are_ordered_lowest_to_highest() {
    assert!(Origin::Default < Origin::ConfigFile);
    assert!(Origin::ConfigFile < Origin::Environment);
    assert!(Origin::Environment < Origin::CommandLine);
}
