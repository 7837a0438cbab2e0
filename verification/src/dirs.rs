//! Where the program keeps its own files.

use vstd::prelude::*;

use crate::github::{join_path, path_in};

verus! {

/// A variable's value, if it is set to anything: an empty value counts as unset.
pub open spec fn set_value(value: Option<String>) -> Option<Seq<char>> {
    match value {
        Some(text) => if text@.len() > 0 {
            Some(text@)
        } else {
            None
        },
        None => None,
    }
}

/// A variable's value, if it is set to anything.
pub fn env_value(value: Option<String>) -> (set: Option<String>)
    ensures
        crate::github::opt_text(set) == set_value(value),
        set is Some ==> set == value,
{
    match value {
        Some(text) => if text.as_str().is_empty() {
            None
        } else {
            Some(text)
        },
        None => None,
    }
}

/// Where the log goes: the directory named for it, the one for state, or the
/// one under the home directory.
pub open spec fn state_dir(
    explicit: Option<String>,
    xdg: Option<String>,
    home: Seq<char>,
) -> Seq<char> {
    match (explicit, xdg) {
        (Some(dir), _) => dir@,
        (None, Some(dir)) => path_in(dir@, "shanti"@),
        (None, None) => path_in(path_in(path_in(home, ".local"@), "state"@), "shanti"@),
    }
}

/// The directory of the log. `shanti_data` and `xdg_state_home` are values that
/// are set.
pub fn state_dir_from(
    shanti_data: Option<String>,
    xdg_state_home: Option<String>,
    home: &str,
) -> (dir: String)
    ensures
        dir@ == state_dir(shanti_data, xdg_state_home, home@),
{
    if let Some(explicit) = shanti_data {
        return explicit;
    }
    if let Some(xdg) = xdg_state_home {
        return join_path(xdg.as_str(), "shanti");
    }
    let local = join_path(home, ".local");
    let state = join_path(local.as_str(), "state");
    join_path(state.as_str(), "shanti")
}

/// Where the configuration is: the directory named for it, the one for
/// configuration, or the one under the home directory.
pub open spec fn config_dir(
    explicit: Option<String>,
    xdg: Option<String>,
    home: Seq<char>,
) -> Seq<char> {
    match (explicit, xdg) {
        (Some(dir), _) => dir@,
        (None, Some(dir)) => path_in(dir@, "shanti"@),
        (None, None) => path_in(path_in(home, ".config"@), "shanti"@),
    }
}

/// The directory of the configuration file. `shanti_config` and
/// `xdg_config_home` are values that are set.
pub fn config_dir_from(
    shanti_config: Option<String>,
    xdg_config_home: Option<String>,
    home: &str,
) -> (dir: String)
    ensures
        dir@ == config_dir(shanti_config, xdg_config_home, home@),
{
    if let Some(explicit) = shanti_config {
        return explicit;
    }
    if let Some(xdg) = xdg_config_home {
        return join_path(xdg.as_str(), "shanti");
    }
    let config = join_path(home, ".config");
    join_path(config.as_str(), "shanti")
}

/// The directory of the configuration file, from the environment as it is and
/// the home directory if there is one.
pub fn get_config_dir(
    shanti_config: Option<String>,
    xdg_config_home: Option<String>,
    home: Option<String>,
) -> (dir: Result<String, String>)
    ensures
        match home {
            None => dir matches Err(text) && text@ == "Unable to find a home directory for shanti"@,
            Some(home) => dir matches Ok(path) && path@ == (match (
                set_value(shanti_config),
                set_value(xdg_config_home),
            ) {
                (Some(explicit), _) => explicit,
                (None, Some(xdg)) => path_in(xdg, "shanti"@),
                (None, None) => path_in(path_in(home@, ".config"@), "shanti"@),
            }),
        },
{
    match home {
        None => Err("Unable to find a home directory for shanti".to_owned()),
        Some(home) => Ok(
            config_dir_from(env_value(shanti_config), env_value(xdg_config_home), home.as_str()),
        ),
    }
}

/// The directory of the log, from the environment as it is and the home
/// directory if there is one.
pub fn get_data_dir(
    shanti_data: Option<String>,
    xdg_state_home: Option<String>,
    home: Option<String>,
) -> (dir: Result<String, String>)
    ensures
        match home {
            None => dir matches Err(text) && text@ == "Unable to find a home directory for shanti"@,
            Some(home) => dir matches Ok(path) && path@ == (match (
                set_value(shanti_data),
                set_value(xdg_state_home),
            ) {
                (Some(explicit), _) => explicit,
                (None, Some(xdg)) => path_in(xdg, "shanti"@),
                (None, None) => path_in(
                    path_in(path_in(home@, ".local"@), "state"@),
                    "shanti"@,
                ),
            }),
        },
{
    match home {
        None => Err("Unable to find a home directory for shanti".to_owned()),
        Some(home) => Ok(
            state_dir_from(env_value(shanti_data), env_value(xdg_state_home), home.as_str()),
        ),
    }
}

/// A variable that is empty is as good as unset; any other counts by its value.
pub proof fn law_an_empty_variable_is_unset(value: Option<String>)
    ensures
        set_value(value) is Some <==> value is Some && value->0@.len() > 0,
        set_value(value) matches Some(text) ==> text == value->0@,
{
}

/// The directory a user names for the program is taken as it is, before the one
/// of the desktop and the one under their home; the last two hold more than this
/// program, which keeps to a directory of its own name in them.
pub proof fn law_a_named_directory_comes_first(
    explicit: Option<String>,
    xdg: Option<String>,
    home: Seq<char>,
)
    ensures
        explicit matches Some(dir) ==> config_dir(explicit, xdg, home) == dir@ && state_dir(
            explicit,
            xdg,
            home,
        ) == dir@,
        explicit is None ==> (xdg matches Some(dir) ==> config_dir(explicit, xdg, home) == path_in(
            dir@,
            "shanti"@,
        ) && state_dir(explicit, xdg, home) == path_in(dir@, "shanti"@)),
        explicit is None && xdg is None ==> config_dir(explicit, xdg, home) == path_in(
            path_in(home, ".config"@),
            "shanti"@,
        ) && state_dir(explicit, xdg, home) == path_in(
            path_in(path_in(home, ".local"@), "state"@),
            "shanti"@,
        ),
{
}

} // verus!
