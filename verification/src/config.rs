//! The configuration file: what it can say, and what a bad one is answered.

use vstd::prelude::*;

use crate::github::{join_path, opt_text, path_in};
use crate::text::{concat, joined};
use crate::theme::scheme;

verus! {

/// File name looked up inside the configuration directory.
pub const CONFIG_FILE_NAME: &'static str = "config.toml";

/// The backend preferred when creating a space in a repository that has two.
#[derive(Debug, Clone, Copy, PartialEq, Eq, Structural)]
pub enum Backend {
    /// Plain git worktrees.
    Git,
    /// Jujutsu workspaces.
    Jujutsu,
}

impl Default for Backend {
    fn default() -> (backend: Self)
        ensures
            backend == Backend::Git,
    {
        Backend::Git
    }
}

/// What to do once a new space exists on disk.
#[derive(Debug, PartialEq, Eq)]
pub struct Hooks {
    /// Files to copy from the repository root, as paths relative to it.
    pub copy: Vec<String>,
    /// Shell commands run in the new space, in order, after the copies.
    pub run: Vec<String>,
}

impl Hooks {
    /// Whether there is nothing to do.
    #[verifier::allow_in_spec]
    pub fn is_empty(&self) -> bool
        returns
            self.copy@.len() == 0 && self.run@.len() == 0,
    {
        self.copy.len() == 0 && self.run.len() == 0
    }
}

impl Default for Hooks {
    fn default() -> (hooks: Self)
        ensures
            hooks.copy@.len() == 0,
            hooks.run@.len() == 0,
    {
        Hooks { copy: Vec::new(), run: Vec::new() }
    }
}

/// Settings that apply to one repository only.
#[derive(Debug, PartialEq, Eq)]
pub struct RepoConfig {
    /// Hooks run after a space of this repository is created.
    pub hooks: Hooks,
}

/// A repository's settings, under its name or its absolute path.
#[derive(Debug, PartialEq, Eq)]
pub struct RepoEntry {
    pub key: String,
    pub config: RepoConfig,
}

/// The settings read from disk.
#[derive(Debug, PartialEq, Eq)]
pub struct Config {
    /// Directories scanned for repositories, exactly as written.
    pub repos_dirs: Vec<String>,
    /// Directory under which spaces are created, exactly as written.
    pub worktrees_dir: Option<String>,
    /// Whether to fetch every repository at startup.
    pub run_fetch: bool,
    pub backend: Backend,
    /// Command used to open a space in an editor.
    pub editor: Option<String>,
    /// Colour scheme, named from the catalogue.
    pub theme: Option<String>,
    /// Hooks run after every space is created.
    pub hooks: Hooks,
    /// Per-repository settings.
    pub repos: Vec<RepoEntry>,
}

/// Whether no repository's settings stand under two entries.
pub open spec fn keys_differ(repos: Seq<RepoEntry>) -> bool {
    forall|i: int, j: int|
        0 <= i < j < repos.len() ==> (#[trigger] repos[i]).key@ != (#[trigger] repos[j]).key@
}

impl Config {
    pub open spec fn wf(self) -> bool {
        keys_differ(self.repos@)
    }

    /// The configuration of a user who wrote none.
    pub open spec fn is_default(self) -> bool {
        &&& self.repos_dirs@.len() == 0
        &&& self.worktrees_dir is None
        &&& !self.run_fetch
        &&& self.backend is Git
        &&& self.editor is None
        &&& self.theme is None
        &&& self.hooks.is_empty()
        &&& self.repos@.len() == 0
    }
}

impl Default for Config {
    fn default() -> (config: Self)
        ensures
            config.is_default(),
            config.wf(),
    {
        Config {
            repos_dirs: Vec::new(),
            worktrees_dir: None,
            run_fetch: false,
            backend: Backend::Git,
            editor: None,
            theme: None,
            hooks: Hooks { copy: Vec::new(), run: Vec::new() },
            repos: Vec::new(),
        }
    }
}

/// How reading the file went.
#[derive(Debug, PartialEq, Eq)]
pub enum ConfigRead {
    /// There is no such file.
    Missing,
    /// It is there and cannot be read.
    Unreadable { error: String },
    /// It is not a configuration: the parser says where and why.
    Invalid { error: String },
    Parsed { config: Config },
}

impl ConfigRead {
    pub open spec fn wf(self) -> bool {
        self matches ConfigRead::Parsed { config } ==> config.wf()
    }
}

/// Whether a scheme name is one of the catalogue's.
pub open spec fn is_known_scheme(name: Seq<char>) -> bool {
    exists|i: int| 0 <= i < scheme::COUNT && #[trigger] scheme::names_entry(name, i)
}

/// The message naming a scheme that is not in the catalogue.
pub open spec fn unknown_scheme_text(name: Seq<char>) -> Seq<char> {
    "unknown colour scheme `"@ + name + "`; valid schemes are: "@ + joined(scheme::names(), ", "@)
}

/// Why a configuration that parses is rejected all the same.
pub open spec fn rejection(config: Config, path: Seq<char>) -> Option<Seq<char>> {
    match config.theme {
        Some(name) => if is_known_scheme(name@) {
            None
        } else {
            Some(
                "Invalid configuration file "@ + path + ": key `theme`: "@ + unknown_scheme_text(
                    name@,
                ),
            )
        },
        None => None,
    }
}

impl Config {
    /// Path of the configuration file inside the configuration directory.
    pub fn path(config_dir: &str) -> (path: String)
        ensures
            path@ == path_in(config_dir@, CONFIG_FILE_NAME@),
    {
        join_path(config_dir, CONFIG_FILE_NAME)
    }

    /// Takes in the configuration file at `path`.
    ///
    /// A missing file yields the defaults; any other trouble is an error naming
    /// the file.
    pub fn load(path: &str, read: ConfigRead) -> (loaded: Result<Config, String>)
        requires
            read.wf(),
        ensures
            loaded matches Ok(config) ==> config.wf(),
            match read {
                ConfigRead::Missing => loaded matches Ok(config) && config.is_default(),
                ConfigRead::Unreadable { error } => loaded matches Err(text) && text@
                    == "Could not read the configuration file "@ + path@ + ": "@ + error@,
                ConfigRead::Invalid { error } => loaded matches Err(text) && text@
                    == "Invalid configuration file "@ + path@ + ": "@ + error@,
                ConfigRead::Parsed { config } => match rejection(config, path@) {
                    Some(reason) => loaded matches Err(text) && text@ == reason,
                    None => loaded == Ok::<Config, String>(config),
                },
            },
    {
        match read {
            ConfigRead::Missing => Ok(Config::default()),
            ConfigRead::Unreadable { error } => {
                let mut text = concat("Could not read the configuration file ", path);
                text.append(": ");
                text.append(error.as_str());
                Err(text)
            },
            ConfigRead::Invalid { error } => {
                let mut text = concat("Invalid configuration file ", path);
                text.append(": ");
                text.append(error.as_str());
                Err(text)
            },
            ConfigRead::Parsed { config } => match config.validate(path) {
                Some(reason) => Err(reason),
                None => Ok(config),
            },
        }
    }

    /// Says why values that parse as their type name nothing real.
    pub fn validate(&self, path: &str) -> (reason: Option<String>)
        ensures
            opt_text(reason) == rejection(*self, path@),
    {
        match &self.theme {
            None => None,
            Some(name) => match scheme::find(name.as_str()) {
                Ok(_) => None,
                Err(unknown) => {
                    let mut text = concat("Invalid configuration file ", path);
                    text.append(": key `theme`: ");
                    text.append(unknown.message().as_str());
                    Some(text)
                },
            },
        }
    }
}

/// A configuration is turned down exactly where it names a scheme that is not in
/// the catalogue, and the reason names the file, the key, the scheme and every
/// scheme there is.
pub proof fn law_only_an_unknown_scheme_is_turned_down(config: Config, path: Seq<char>)
    ensures
        rejection(config, path) is None <==> (config.theme is None || exists|i: int|
            0 <= i < scheme::COUNT && #[trigger] scheme::names_entry(config.theme->0@, i)),
        rejection(config, path) matches Some(reason) ==> reason == "Invalid configuration file "@
            + path + ": key `theme`: "@ + ("unknown colour scheme `"@ + config.theme->0@
            + "`; valid schemes are: "@ + joined(scheme::names(), ", "@)),
{
}

/// Without a configuration no directory is named, nothing is fetched, git is the
/// backend, the scheme is the default one, and no hook runs.
pub proof fn law_nothing_is_set_by_default(config: Config)
    requires
        config.is_default(),
    ensures
        config.repos_dirs@.len() == 0 && config.worktrees_dir is None,
        !config.run_fetch,
        config.backend == Backend::Git,
        config.editor is None && config.theme is None,
        config.hooks.copy@.len() == 0 && config.hooks.run@.len() == 0,
        config.repos@.len() == 0,
{
}

} // verus!
