use shanti::config::{Backend, Config, ConfigRead, CONFIG_FILE_NAME};
use shanti::dirs::config_dir_from;
use shanti::hooks::HookSettings;
use shanti::theme::scheme;

const PATH: &str = "/home/me/.config/shanti/config.toml";

fn themed(name: &str) -> ConfigRead {
    ConfigRead::Parsed {
        config: Config {
            theme: Some(name.to_string()),
            ..Config::default()
        },
    }
}

#[test]
fn config_missing_file_yields_defaults() {
    let config = Config::load(PATH, ConfigRead::Missing).unwrap();
    assert_eq!(config, Config::default());
    assert_eq!(config.backend, Backend::Git);
    assert!(!config.run_fetch);
}

#[test]
fn config_empty_file_yields_defaults() {
    let read = ConfigRead::Parsed {
        config: Config::default(),
    };
    assert_eq!(Config::load(PATH, read).unwrap(), Config::default());
}

#[test]
fn config_without_hooks_has_none() {
    let read = ConfigRead::Parsed {
        config: Config {
            run_fetch: true,
            ..Config::default()
        },
    };
    let config = Config::load(PATH, read).unwrap();
    assert!(config.run_fetch);
    assert!(config.hooks.is_empty());
    assert!(config.repos.is_empty());
}

/// What the parser says of a file reaches the user with the file's name.
#[test]
fn config_wrong_type_reports_the_file_and_the_key() {
    let error = Config::load(
        PATH,
        ConfigRead::Invalid {
            error: "invalid type: string \"yes\", expected a boolean for key `run_fetch`"
                .to_string(),
        },
    )
    .unwrap_err();
    assert!(error.contains("Invalid configuration file"), "{error}");
    assert!(error.contains(PATH), "{error}");
    assert!(error.contains("run_fetch"), "{error}");
}

#[test]
fn config_that_cannot_be_read_is_an_error() {
    let unreadable = || ConfigRead::Unreadable {
        error: "Permission denied".to_string(),
    };
    let error = Config::load(PATH, unreadable()).unwrap_err();
    assert_eq!(
        error,
        format!("Could not read the configuration file {PATH}: Permission denied")
    );
    assert_eq!(HookSettings::load(PATH, unreadable(), None), Err(error));
}

/// A theme is only text to the parser, so the load is what rejects a name that
/// is not in the catalogue, and it teaches the names that would have worked.
#[test]
fn config_unknown_theme_lists_the_valid_schemes() {
    let error = Config::load(PATH, themed("dracula")).unwrap_err();
    assert!(error.contains("theme"), "{error}");
    assert!(error.contains("dracula"), "{error}");
    for scheme in scheme::all() {
        assert!(error.contains(scheme.name), "{error}");
    }
}

#[test]
fn config_theme_name_may_differ_in_case() {
    assert_eq!(
        Config::load(PATH, themed("Catppuccin-Latte"))
            .unwrap()
            .theme
            .as_deref(),
        Some("Catppuccin-Latte")
    );
}

#[test]
fn config_path_is_the_file_in_the_configuration_directory() {
    assert_eq!(Config::path("/home/me/.config/shanti"), PATH);
    assert!(Config::path("/x").ends_with(CONFIG_FILE_NAME));
}

#[test]
fn config_path_honours_the_override_env_var() {
    let dir = config_dir_from(Some("/override".to_string()), None, "/home/me");
    assert_eq!(Config::path(&dir), "/override/config.toml");
}
