//! The one place where configuration precedence is decided.
//!
//! Settings come in layers, lowest to highest: built-in defaults, the
//! configuration file, the environment, the command line. The parser reads the
//! last two and says of each value which of them it came from; a value it made
//! up itself comes from neither, so that the file can still win.

use vstd::prelude::*;

use crate::config::{is_known_scheme, unknown_scheme_text, Backend, Config};
use crate::hooks::{repos_with_hooks, skip_requested, HookSettings};
use crate::text::{
    concat, decimal, decimal_of, is_white, law_trimming_takes_the_blanks_off_the_ends, pad_end, padded,
    trim, trim_of, views,
};
use crate::theme::scheme::{self, is_entry, names_entry, Scheme};

verus! {

/// The raw command line, before any merging.
#[derive(Debug, PartialEq, Eq)]
pub struct Cli {
    pub worktrees_dir: Option<String>,
    pub repos_dirs: Vec<String>,
    pub run_fetch: bool,
    pub theme: Option<String>,
    pub show_config: bool,
    pub no_hooks: bool,
}

/// Where a setting's final value came from, lowest to highest.
#[derive(Debug, Clone, Copy, PartialEq, Eq, PartialOrd, Ord, Structural)]
pub enum Origin {
    /// Nothing set it.
    Default,
    /// Read from the configuration file.
    ConfigFile,
    /// Read from an environment variable.
    Environment,
    /// Typed on the command line.
    CommandLine,
}

impl Origin {
    /// The layer in words.
    #[verifier::allow_in_spec]
    pub fn name(self) -> &'static str
        returns
            (match self {
                Origin::Default => "built-in default",
                Origin::ConfigFile => "config file",
                Origin::Environment => "environment",
                Origin::CommandLine => "command line",
            }),
    {
        match self {
            Origin::Default => "built-in default",
            Origin::ConfigFile => "config file",
            Origin::Environment => "environment",
            Origin::CommandLine => "command line",
        }
    }

    /// The height of the layer.
    pub open spec fn rank(self) -> int {
        match self {
            Origin::Default => 0,
            Origin::ConfigFile => 1,
            Origin::Environment => 2,
            Origin::CommandLine => 3,
        }
    }
}

/// The origin of every resolved setting.
#[derive(Debug, Clone, Copy, PartialEq, Eq, Structural)]
pub struct Origins {
    pub worktrees_dir: Origin,
    pub repos_dirs: Origin,
    pub run_fetch: Origin,
    pub backend: Origin,
    pub editor: Origin,
    pub theme: Origin,
    /// Where the on or off of hooks came from.
    pub hooks: Origin,
}

/// Which layer the parser took each of its values from: `None` where the user
/// said nothing.
#[derive(Debug, Clone, Copy, PartialEq, Eq)]
pub struct Sources {
    pub worktrees_dir: Option<Origin>,
    pub repos_dirs: Option<Origin>,
    pub run_fetch: Option<Origin>,
    pub theme: Option<Origin>,
}

/// Where the parser says a value came from.
#[derive(Debug, Clone, Copy, PartialEq, Eq, Structural)]
pub enum ValueSource {
    CommandLine,
    EnvVariable,
    /// The parser's own default, or anything else.
    MadeUp,
}

/// The layer a parsed value belongs to: one the parser made up belongs to none,
/// so that it cannot outrank the configuration file.
#[verifier::allow_in_spec]
pub fn clap_origin(source: Option<ValueSource>) -> Option<Origin>
    returns
        (match source {
            Some(ValueSource::CommandLine) => Some(Origin::CommandLine),
            Some(ValueSource::EnvVariable) => Some(Origin::Environment),
            _ => None,
        }),
{
    match source {
        Some(ValueSource::CommandLine) => Some(Origin::CommandLine),
        Some(ValueSource::EnvVariable) => Some(Origin::Environment),
        _ => None,
    }
}

/// The effective configuration, every directory resolved.
#[derive(Debug)]
pub struct Args {
    /// Directory where new spaces are created.
    pub worktrees_dir: String,
    /// Directories scanned for repositories.
    pub repos_dirs: Vec<String>,
    /// Whether to fetch every repository at startup.
    pub run_fetch: bool,
    pub backend: Backend,
    /// Command used to open a space in an editor.
    pub editor: Option<String>,
    /// The colour scheme in force for this run.
    pub theme: Scheme,
    /// Where each of the above came from.
    pub origins: Origins,
    /// Configuration file consulted, whether or not it existed.
    pub config_path: String,
    /// Print the configuration instead of running.
    pub show_config: bool,
    /// What to run after a space is created.
    pub hooks: HookSettings,
}

// ---------------------------------------------------------------------------
// Merging
// ---------------------------------------------------------------------------

/// Whether a value says nothing.
pub open spec fn is_blank(value: Seq<char>) -> bool {
    trim_of(value).len() == 0
}

fn blank(value: &str) -> (yes: bool)
    ensures
        yes == is_blank(value@),
{
    trim(value).as_str().is_empty()
}

/// A setting two layers can name: the parsed value wins if it came from a layer
/// and is not blank, then the file's.
pub open spec fn pick(
    source: Option<Origin>,
    parsed: Option<String>,
    file: Option<String>,
) -> (Option<String>, Origin) {
    match (source, parsed) {
        (Some(origin), Some(value)) => if !is_blank(value@) {
            (parsed, origin)
        } else {
            pick_file(file)
        },
        _ => pick_file(file),
    }
}

/// What the file says, if it says anything.
pub open spec fn pick_file(file: Option<String>) -> (Option<String>, Origin) {
    match file {
        Some(_) => (file, Origin::ConfigFile),
        None => (None, Origin::Default),
    }
}

fn pick_value(source: Option<Origin>, parsed: Option<String>, file: &Option<String>) -> (picked: (
    Option<String>,
    Origin,
))
    ensures
        picked == pick(source, parsed, *file),
{
    if let (Some(origin), Some(value)) = (source, parsed) {
        if !blank(value.as_str()) {
            return (Some(value), origin);
        }
    }
    match file {
        Some(value) => (Some(value.clone()), Origin::ConfigFile),
        None => (None, Origin::Default),
    }
}

/// The entries of a list that say something.
pub open spec fn given(dirs: Seq<String>) -> Seq<String> {
    dirs.filter(|dir: String| !is_blank(dir@))
}

/// The repository directories of the highest layer that names any.
pub open spec fn pick_dirs(
    source: Option<Origin>,
    parsed: Seq<String>,
    file: Seq<String>,
) -> (Seq<String>, Origin) {
    match source {
        Some(origin) => if given(parsed).len() > 0 {
            (given(parsed), origin)
        } else {
            pick_file_dirs(file)
        },
        None => pick_file_dirs(file),
    }
}

/// The repository directories the file names, if it names any.
pub open spec fn pick_file_dirs(file: Seq<String>) -> (Seq<String>, Origin) {
    if file.len() > 0 {
        (file, Origin::ConfigFile)
    } else {
        (Seq::empty(), Origin::Default)
    }
}

/// The entries of `dirs` that say something, in order.
fn keep_given(dirs: Vec<String>) -> (kept: Vec<String>)
    ensures
        kept@ == given(dirs@),
{
    let ghost keep = |dir: String| !is_blank(dir@);
    let mut kept: Vec<String> = Vec::new();
    let mut i: usize = 0;
    assert(dirs@.take(0) =~= Seq::<String>::empty());
    proof {
        reveal(Seq::filter);
        assert(Seq::<String>::empty().filter(keep) =~= Seq::<String>::empty());
    }
    while i < dirs.len()
        invariant
            keep == (|dir: String| !is_blank(dir@)),
            i <= dirs@.len(),
            kept@ == dirs@.take(i as int).filter(keep),
        decreases dirs.len() - i,
    {
        let ghost now = dirs@.take(i + 1);
        assert(now.drop_last() =~= dirs@.take(i as int));
        assert(now.last() == dirs@[i as int]);
        proof {
            reveal(Seq::filter);
        }
        if !blank(dirs[i].as_str()) {
            kept.push(dirs[i].clone());
        }
        i = i + 1;
    }
    assert(dirs@.take(dirs@.len() as int) =~= dirs@);
    kept
}

/// Copies of every entry, in order.
pub fn copy_all(list: &Vec<String>) -> (copy: Vec<String>)
    ensures
        copy@ == list@,
{
    let mut copy: Vec<String> = Vec::new();
    let mut i: usize = 0;
    while i < list.len()
        invariant
            i <= list@.len(),
            copy@ == list@.take(i as int),
        decreases list.len() - i,
    {
        copy.push(list[i].clone());
        assert(list@.take(i + 1) =~= list@.take(i as int).push(list@[i as int]));
        i = i + 1;
    }
    assert(list@.take(list@.len() as int) =~= list@);
    copy
}

/// Names a setting the way the user wrote it.
pub open spec fn label_text(flag: Seq<char>, origin: Origin) -> Seq<char> {
    match origin {
        Origin::ConfigFile => flag + " (from the config file)"@,
        Origin::Environment => flag + " (from the environment)"@,
        _ => flag,
    }
}

/// Names a setting the way the user wrote it, so an error points at what has to
/// be edited.
pub fn label(flag: &str, origin: Origin) -> (text: String)
    ensures
        text@ == label_text(flag@, origin),
{
    match origin {
        Origin::ConfigFile => concat(flag, " (from the config file)"),
        Origin::Environment => concat(flag, " (from the environment)"),
        _ => flag.to_owned(),
    }
}

/// The message for a worktrees directory no layer names.
pub open spec fn no_worktrees_dir(path: Seq<char>) -> Seq<char> {
    "no worktrees directory given: pass --worktrees-dir, set SHANTI_WORKTREES_DIR, or add worktrees_dir to "@
        + path
}

/// The message for repository directories no layer names.
pub open spec fn no_repos_dir(path: Seq<char>) -> Seq<char> {
    "no repository directory given: pass --repos-dir, set SHANTI_REPOS_DIR, or add repos_dirs to "@
        + path
}

/// The settings of every layer, merged, before any directory is looked at.
#[derive(Debug)]
pub struct Chosen {
    pub worktrees_dir: String,
    pub repos_dirs: Vec<String>,
    pub run_fetch: bool,
    pub backend: Backend,
    pub editor: Option<String>,
    pub theme: Scheme,
    pub origins: Origins,
    pub config_path: String,
    pub show_config: bool,
    pub hooks: HookSettings,
}

/// Why the layers cannot be merged: the first setting that has no value, or a
/// scheme nobody knows.
pub open spec fn refusal(
    cli: Cli,
    sources: Sources,
    config: Config,
    config_path: Seq<char>,
) -> Option<Seq<char>> {
    let theme = pick(sources.theme, cli.theme, config.theme);
    if pick(sources.worktrees_dir, cli.worktrees_dir, config.worktrees_dir).0 is None {
        Some(no_worktrees_dir(config_path))
    } else if pick_dirs(sources.repos_dirs, cli.repos_dirs@, config.repos_dirs@).0.len() == 0 {
        Some(no_repos_dir(config_path))
    } else if theme.0 is Some && !is_known_scheme(theme.0->0@) {
        Some(label_text("--theme"@, theme.1) + ": "@ + unknown_scheme_text(theme.0->0@))
    } else {
        None
    }
}

/// The scheme a name stands for, or the default one.
pub open spec fn is_scheme_for(scheme: Scheme, name: Option<String>) -> bool {
    match name {
        Some(text) => exists|i: int|
            0 <= i < scheme::COUNT && #[trigger] names_entry(text@, i) && is_entry(scheme, i),
        None => is_entry(scheme, 0),
    }
}

/// Where the on or off of hooks came from.
pub open spec fn hooks_origin(no_hooks: bool, skip: Option<String>) -> Origin {
    if no_hooks {
        Origin::CommandLine
    } else if skip_requested(skip) {
        Origin::Environment
    } else {
        Origin::ConfigFile
    }
}

/// Merges the layers. `skip` is the value of the variable that switches hooks
/// off.
pub fn resolve(
    cli: Cli,
    sources: Sources,
    config: Config,
    config_path: String,
    skip: Option<String>,
) -> (chosen: Result<Chosen, String>)
    requires
        config.wf(),
    ensures
        chosen matches Ok(c) ==> c.hooks.wf(),
        match chosen {
            Err(text) => refusal(cli, sources, config, config_path@) == Some(text@),
            Ok(c) => {
                let worktrees = pick(
                    sources.worktrees_dir,
                    cli.worktrees_dir,
                    config.worktrees_dir,
                );
                let repos = pick_dirs(sources.repos_dirs, cli.repos_dirs@, config.repos_dirs@);
                let theme = pick(sources.theme, cli.theme, config.theme);
                &&& refusal(cli, sources, config, config_path@) is None
                &&& worktrees == (Some(c.worktrees_dir), c.origins.worktrees_dir)
                &&& repos == (c.repos_dirs@, c.origins.repos_dirs)
                &&& (c.run_fetch, c.origins.run_fetch) == (match sources.run_fetch {
                    Some(origin) => (cli.run_fetch, origin),
                    None => if config.run_fetch {
                        (true, Origin::ConfigFile)
                    } else {
                        (false, Origin::Default)
                    },
                })
                &&& is_scheme_for(c.theme, theme.0)
                &&& c.origins.theme == theme.1
                &&& c.backend == config.backend
                &&& c.origins.backend == (if config.backend is Git {
                    Origin::Default
                } else {
                    Origin::ConfigFile
                })
                &&& c.editor == config.editor
                &&& c.origins.editor == (if config.editor is Some {
                    Origin::ConfigFile
                } else {
                    Origin::Default
                })
                &&& c.hooks == (HookSettings {
                    config,
                    enabled: !cli.no_hooks && !skip_requested(skip),
                })
                &&& c.origins.hooks == hooks_origin(cli.no_hooks, skip)
                &&& c.config_path == config_path
                &&& c.show_config == cli.show_config
            },
        },
{
    let Cli {
        worktrees_dir: cli_worktrees_dir,
        repos_dirs: cli_repos_dirs,
        run_fetch: cli_run_fetch,
        theme: cli_theme,
        show_config,
        no_hooks,
    } = cli;

    let (worktrees_dir, worktrees_origin) = pick_value(
        sources.worktrees_dir,
        cli_worktrees_dir,
        &config.worktrees_dir,
    );
    let worktrees_dir = match worktrees_dir {
        Some(dir) => dir,
        None => {
            return Err(
                concat(
                    "no worktrees directory given: pass --worktrees-dir, set SHANTI_WORKTREES_DIR, or add worktrees_dir to ",
                    config_path.as_str(),
                ),
            );
        },
    };

    let named = keep_given(cli_repos_dirs);
    let (repos_dirs, repos_origin) = match sources.repos_dirs {
        Some(origin) if named.len() > 0 => (named, origin),
        _ => if config.repos_dirs.len() > 0 {
            (copy_all(&config.repos_dirs), Origin::ConfigFile)
        } else {
            (Vec::new(), Origin::Default)
        },
    };
    if repos_dirs.len() == 0 {
        return Err(
            concat(
                "no repository directory given: pass --repos-dir, set SHANTI_REPOS_DIR, or add repos_dirs to ",
                config_path.as_str(),
            ),
        );
    }

    let (run_fetch, fetch_origin) = match sources.run_fetch {
        Some(origin) => (cli_run_fetch, origin),
        None => if config.run_fetch {
            (true, Origin::ConfigFile)
        } else {
            (false, Origin::Default)
        },
    };

    let (theme_name, theme_origin) = pick_value(sources.theme, cli_theme, &config.theme);
    let theme = match &theme_name {
        Some(name) => match scheme::find(name.as_str()) {
            Ok(scheme) => scheme,
            Err(unknown) => {
                let mut text = label("--theme", theme_origin);
                text.append(": ");
                text.append(unknown.message().as_str());
                assert(text@ =~= label_text("--theme"@, theme_origin) + ": "@ + unknown_scheme_text(
                    name@,
                ));
                return Err(text);
            },
        },
        None => default_scheme(),
    };

    let backend = config.backend;
    let backend_origin = if backend == Backend::Git {
        Origin::Default
    } else {
        Origin::ConfigFile
    };
    let editor = match &config.editor {
        Some(command) => Some(command.clone()),
        None => None,
    };
    let editor_origin = if editor.is_some() {
        Origin::ConfigFile
    } else {
        Origin::Default
    };

    let hooks = HookSettings::from_config(config, skip);
    let hooks = if no_hooks {
        hooks.switched_off()
    } else {
        hooks
    };
    let hooks_from = if no_hooks {
        Origin::CommandLine
    } else if !hooks.enabled() {
        Origin::Environment
    } else {
        Origin::ConfigFile
    };

    Ok(
        Chosen {
            worktrees_dir,
            repos_dirs,
            run_fetch,
            backend,
            editor,
            theme,
            origins: Origins {
                worktrees_dir: worktrees_origin,
                repos_dirs: repos_origin,
                run_fetch: fetch_origin,
                backend: backend_origin,
                editor: editor_origin,
                theme: theme_origin,
                hooks: hooks_from,
            },
            config_path,
            show_config,
            hooks,
        },
    )
}

/// The scheme to start with when no layer names one.
pub fn default_scheme() -> (scheme: Scheme)
    ensures
        is_entry(scheme, 0),
{
    proof {
        scheme::lemma_default_name();
    }
    let schemes = scheme::all();
    match scheme::find(scheme::DEFAULT) {
        Ok(scheme) => {
            proof {
                let i = choose|i: int|
                    0 <= i < scheme::COUNT && #[trigger] names_entry(scheme::DEFAULT@, i)
                        && is_entry(scheme, i);
                scheme::law_names_are_unique(scheme::DEFAULT@, 0, i);
            }
            scheme
        },
        Err(_) => schemes[0],
    }
}

// ---------------------------------------------------------------------------
// Directories
// ---------------------------------------------------------------------------

/// What looking at a directory came to.
#[derive(Debug, PartialEq, Eq)]
pub enum DirProbe {
    /// There is no home directory to put in place of the tilde.
    NoHome { dir: String, error: String },
    /// It is not there, or cannot be opened.
    CannotOpen { expanded: String, error: String },
    NotDirectory { canonical: String },
    /// Its absolute path cannot be written as text.
    NotText { shown: String },
    /// It is there, under this absolute path.
    Found { path: String },
}

/// The absolute path of a directory, or why it cannot be used.
pub open spec fn dir_of(probe: DirProbe) -> Result<Seq<char>, Seq<char>> {
    match probe {
        DirProbe::NoHome { dir, error } => Err(
            "could not expand '~' in '"@ + dir@ + "': "@ + error@,
        ),
        DirProbe::CannotOpen { expanded, error } => Err(
            "could not open directory '"@ + expanded@ + "': "@ + error@,
        ),
        DirProbe::NotDirectory { canonical } => Err("'"@ + canonical@ + "' is not a directory"@),
        DirProbe::NotText { shown } => Err("path is not valid UTF-8: '"@ + shown@ + "'"@),
        DirProbe::Found { path } => Ok(path@),
    }
}

/// The text of a result.
pub open spec fn result_text(result: Result<String, String>) -> Result<Seq<char>, Seq<char>> {
    match result {
        Ok(text) => Ok(text@),
        Err(text) => Err(text@),
    }
}

/// The absolute path of a directory, or why it cannot be used.
pub fn resolve_existing_dir(probe: DirProbe) -> (dir: Result<String, String>)
    ensures
        result_text(dir) == dir_of(probe),
{
    match probe {
        DirProbe::NoHome { dir, error } => {
            let mut text = concat("could not expand '~' in '", dir.as_str());
            text.append("': ");
            text.append(error.as_str());
            Err(text)
        },
        DirProbe::CannotOpen { expanded, error } => {
            let mut text = concat("could not open directory '", expanded.as_str());
            text.append("': ");
            text.append(error.as_str());
            Err(text)
        },
        DirProbe::NotDirectory { canonical } => {
            let mut text = concat("'", canonical.as_str());
            text.append("' is not a directory");
            Err(text)
        },
        DirProbe::NotText { shown } => {
            let mut text = concat("path is not valid UTF-8: '", shown.as_str());
            text.append("'");
            Err(text)
        },
        DirProbe::Found { path } => Ok(path),
    }
}

/// The directories that can be used, in order.
pub open spec fn usable(probes: Seq<DirProbe>) -> Seq<Seq<char>>
    decreases probes.len(),
{
    if probes.len() == 0 {
        Seq::empty()
    } else {
        match dir_of(probes.last()) {
            Ok(path) => usable(probes.drop_last()).push(path),
            Err(_) => usable(probes.drop_last()),
        }
    }
}

/// Why the others cannot, in order.
pub open spec fn reasons(probes: Seq<DirProbe>) -> Seq<Seq<char>>
    decreases probes.len(),
{
    if probes.len() == 0 {
        Seq::empty()
    } else {
        match dir_of(probes.last()) {
            Ok(_) => reasons(probes.drop_last()),
            Err(reason) => reasons(probes.drop_last()).push(reason),
        }
    }
}

/// Every reason on a line of its own.
pub open spec fn listed(reasons: Seq<Seq<char>>) -> Seq<char>
    decreases reasons.len(),
{
    if reasons.len() == 0 {
        Seq::empty()
    } else {
        listed(reasons.drop_last()) + "\n  "@ + reasons.last()
    }
}

/// The message when not one directory can be used.
pub open spec fn nothing_usable(label: Seq<char>, why: Seq<Seq<char>>) -> Seq<char> {
    if why.len() == 1 {
        label + ": "@ + why[0]
    } else {
        label + ": none of the repository directories could be opened:"@ + listed(why)
    }
}

/// The repository directories to scan, and what was skipped and why.
#[derive(Debug, PartialEq, Eq)]
pub struct ReposDirs {
    pub dirs: Vec<String>,
    pub skipped: Vec<String>,
}

/// Resolves the repository list, tolerating entries that are gone: only a list
/// of which nothing is left is an error, and it then says why of each entry.
pub fn resolve_repos_dirs(probes: Vec<DirProbe>, label: &str) -> (dirs: Result<ReposDirs, String>)
    ensures
        match dirs {
            Ok(found) => usable(probes@).len() > 0 && views(found.dirs@) == usable(probes@)
                && views(found.skipped@) == reasons(probes@),
            Err(text) => usable(probes@).len() == 0 && text@ == nothing_usable(
                label@,
                reasons(probes@),
            ),
        },
{
    let ghost all = probes@;
    let mut probes = probes;
    let mut dirs: Vec<String> = Vec::new();
    let mut skipped: Vec<String> = Vec::new();
    let mut rest: Vec<DirProbe> = Vec::new();
    // Turned round once, so that the entries come off in order.
    while probes.len() > 0
        invariant
            probes@.len() + rest@.len() == all.len(),
            probes@ == all.take(probes@.len() as int),
            forall|k: int|
                0 <= k < rest@.len() ==> #[trigger] rest@[k] == all[all.len() - 1 - k],
        decreases probes.len(),
    {
        let ghost m = probes@.len() as int;
        if let Some(probe) = probes.pop() {
            rest.push(probe);
        }
        assert(all.take(m).drop_last() =~= all.take(m - 1));
    }
    let ghost n = all.len() as int;
    assert(all.take(0) =~= Seq::<DirProbe>::empty());
    assert(views(dirs@) =~= usable(all.take(0)));
    assert(views(skipped@) =~= reasons(all.take(0)));
    while rest.len() > 0
        invariant
            n == all.len(),
            rest@.len() <= n,
            forall|k: int|
                0 <= k < rest@.len() ==> #[trigger] rest@[k] == all[n - 1 - k],
            views(dirs@) == usable(all.take(n - rest@.len())),
            views(skipped@) == reasons(all.take(n - rest@.len())),
        decreases rest.len(),
    {
        let ghost m = n - rest@.len();
        let ghost so_far = views(dirs@);
        let ghost why = views(skipped@);
        assert(rest@[rest@.len() - 1] == all[m]);
        if let Some(probe) = rest.pop() {
            assert(probe == all[m]);
            assert(all.take(m + 1).drop_last() =~= all.take(m));
            assert(all.take(m + 1).last() == probe);
            match resolve_existing_dir(probe) {
                Ok(path) => {
                    dirs.push(path);
                    assert(views(dirs@) =~= so_far.push(path@));
                },
                Err(reason) => {
                    skipped.push(reason);
                    assert(views(skipped@) =~= why.push(reason@));
                },
            }
        }
    }
    assert(all.take(n) =~= all);
    assert(views(dirs@).len() == dirs@.len());
    assert(views(skipped@).len() == skipped@.len());
    if dirs.len() == 0 {
        if skipped.len() == 1 {
            let mut text = concat(label, ": ");
            text.append(skipped[0].as_str());
            assert(views(skipped@)[0] == skipped@[0]@);
            return Err(text);
        }
        let mut text = concat(label, ": none of the repository directories could be opened:");
        let ghost head = text@;
        let mut i: usize = 0;
        assert(views(skipped@).take(0) =~= Seq::<Seq<char>>::empty());
        assert(head + listed(views(skipped@).take(0)) =~= head);
        while i < skipped.len()
            invariant
                i <= skipped@.len(),
                text@ == head + listed(views(skipped@).take(i as int)),
            decreases skipped.len() - i,
        {
            let ghost now = views(skipped@).take(i + 1);
            assert(now.drop_last() =~= views(skipped@).take(i as int));
            assert(now.last() == skipped@[i as int]@);
            text.append("\n  ");
            text.append(skipped[i].as_str());
            assert(text@ =~= head + listed(now));
            i = i + 1;
        }
        assert(views(skipped@).take(skipped@.len() as int) =~= views(skipped@));
        return Err(text);
    }
    Ok(ReposDirs { dirs, skipped })
}

/// What making the worktrees directory came to.
#[derive(Debug, PartialEq, Eq)]
pub enum WorktreesProbe {
    NoHome { dir: String, error: String },
    NotCreated { expanded: String, error: String },
    Made { probe: DirProbe },
}

/// The absolute path of the worktrees directory, or why there is none.
pub open spec fn worktrees_of(probe: WorktreesProbe, label: Seq<char>) -> Result<
    Seq<char>,
    Seq<char>,
> {
    match probe {
        WorktreesProbe::NoHome { dir, error } => Err(
            label + ": could not expand '~' in '"@ + dir@ + "': "@ + error@,
        ),
        WorktreesProbe::NotCreated { expanded, error } => Err(
            label + ": could not create '"@ + expanded@ + "': "@ + error@,
        ),
        WorktreesProbe::Made { probe } => match dir_of(probe) {
            Ok(path) => Ok(path),
            Err(reason) => Err(label + ": "@ + reason),
        },
    }
}

/// The absolute path of the worktrees directory, or why there is none.
pub fn resolve_worktrees_dir(probe: WorktreesProbe, label: &str) -> (dir: Result<String, String>)
    ensures
        result_text(dir) == worktrees_of(probe, label@),
{
    match probe {
        WorktreesProbe::NoHome { dir, error } => {
            let mut text = concat(label, ": could not expand '~' in '");
            text.append(dir.as_str());
            text.append("': ");
            text.append(error.as_str());
            Err(text)
        },
        WorktreesProbe::NotCreated { expanded, error } => {
            let mut text = concat(label, ": could not create '");
            text.append(expanded.as_str());
            text.append("': ");
            text.append(error.as_str());
            Err(text)
        },
        WorktreesProbe::Made { probe } => match resolve_existing_dir(probe) {
            Ok(path) => Ok(path),
            Err(reason) => {
                let mut text = concat(label, ": ");
                text.append(reason.as_str());
                Err(text)
            },
        },
    }
}

impl Chosen {
    /// The effective configuration, once the directories were resolved.
    pub fn into_args(self, worktrees_dir: String, repos_dirs: Vec<String>) -> (args: Args)
        ensures
            args.worktrees_dir == worktrees_dir,
            args.repos_dirs == repos_dirs,
            args.run_fetch == self.run_fetch,
            args.backend == self.backend,
            args.editor == self.editor,
            args.theme == self.theme,
            args.origins == self.origins,
            args.config_path == self.config_path,
            args.show_config == self.show_config,
            args.hooks == self.hooks,
    {
        Args {
            worktrees_dir,
            repos_dirs,
            run_fetch: self.run_fetch,
            backend: self.backend,
            editor: self.editor,
            theme: self.theme,
            origins: self.origins,
            config_path: self.config_path,
            show_config: self.show_config,
            hooks: self.hooks,
        }
    }
}

// ---------------------------------------------------------------------------
// The effective configuration
// ---------------------------------------------------------------------------

/// One line of the report.
pub open spec fn setting_text(name: Seq<char>, value: Seq<char>, origin: Origin) -> Seq<char> {
    padded(name, 14) + " = "@ + value + "  ("@ + origin.name()@ + ")\n"@
}

fn setting(name: &str, value: &str, origin: Origin) -> (line: String)
    ensures
        line@ == setting_text(name@, value@, origin),
{
    let mut line = pad_end(name, 14);
    line.append(" = ");
    line.append(value);
    line.append("  (");
    line.append(origin.name());
    line.append(")\n");
    line
}

/// The directories after the first, each on a line of its own.
pub open spec fn more_dirs(dirs: Seq<String>) -> Seq<char>
    decreases dirs.len(),
{
    if dirs.len() <= 1 {
        Seq::empty()
    } else {
        more_dirs(dirs.drop_last()) + padded(""@, 14) + "   "@ + dirs.last()@ + "\n"@
    }
}

/// What is configured to run, in words.
pub open spec fn configured_text(copies: nat, commands: nat, repos: nat) -> Seq<char> {
    if copies == 0 && commands == 0 && repos == 0 {
        "none configured"@
    } else {
        decimal_of(copies) + " file(s) copied, "@ + decimal_of(commands) + " command(s), "@
            + decimal_of(repos) + " repo(s) with their own"@
    }
}

/// What will run after a space is created, in words.
pub open spec fn hooks_text(hooks: HookSettings) -> Seq<char> {
    let configured = configured_text(
        hooks.config.hooks.copy@.len(),
        hooks.config.hooks.run@.len(),
        repos_with_hooks(hooks.config.repos@),
    );
    if hooks.enabled {
        configured
    } else {
        "disabled ("@ + configured + ")"@
    }
}

/// What `true` and `false` are written as.
pub open spec fn bool_text(value: bool) -> Seq<char> {
    if value {
        "true"@
    } else {
        "false"@
    }
}

/// What a backend is written as.
pub open spec fn backend_text(backend: Backend) -> Seq<char> {
    match backend {
        Backend::Git => "git"@,
        Backend::Jujutsu => "jujutsu"@,
    }
}

impl Args {
    /// A configuration from directories the caller already resolved, every
    /// setting at its default and no hook allowed to run.
    pub fn for_dirs(worktrees_dir: String, repos_dirs: Vec<String>) -> (args: Args)
        ensures
            args.worktrees_dir == worktrees_dir,
            args.repos_dirs == repos_dirs,
            !args.run_fetch,
            args.backend is Git,
            args.editor is None,
            is_entry(args.theme, 0),
            args.origins == (Origins {
                worktrees_dir: Origin::Default,
                repos_dirs: Origin::Default,
                run_fetch: Origin::Default,
                backend: Origin::Default,
                editor: Origin::Default,
                theme: Origin::Default,
                hooks: Origin::Default,
            }),
            args.config_path@.len() == 0,
            !args.show_config,
            !args.hooks.enabled,
            args.hooks.config.is_default(),
    {
        Args {
            worktrees_dir,
            repos_dirs,
            run_fetch: false,
            backend: Backend::Git,
            editor: None,
            theme: default_scheme(),
            origins: Origins {
                worktrees_dir: Origin::Default,
                repos_dirs: Origin::Default,
                run_fetch: Origin::Default,
                backend: Origin::Default,
                editor: Origin::Default,
                theme: Origin::Default,
                hooks: Origin::Default,
            },
            config_path: String::new(),
            show_config: false,
            hooks: HookSettings::disabled(),
        }
    }

    /// The same configuration with hooks of the caller's choosing.
    pub fn with_hooks(self, hooks: HookSettings) -> (args: Args)
        ensures
            args == (Args { hooks, ..self }),
    {
        Args { hooks, ..self }
    }

    /// What the report says of the repository directories.
    pub open spec fn dirs_text(self) -> Seq<char> {
        setting_text(
            "repos_dirs"@,
            if self.repos_dirs@.len() == 0 {
                Seq::empty()
            } else {
                self.repos_dirs@[0]@
            },
            self.origins.repos_dirs,
        ) + more_dirs(self.repos_dirs@)
    }

    /// The report: every setting, its value and where it came from.
    pub open spec fn report_text(self, found: bool) -> Seq<char> {
        "config file: "@ + self.config_path@ + (if found {
            " (loaded)\n\n"@
        } else {
            " (not found, using defaults)\n\n"@
        }) + setting_text("worktrees_dir"@, self.worktrees_dir@, self.origins.worktrees_dir)
            + self.dirs_text() + setting_text(
            "run_fetch"@,
            bool_text(self.run_fetch),
            self.origins.run_fetch,
        ) + setting_text("backend"@, backend_text(self.backend), self.origins.backend)
            + setting_text(
            "editor"@,
            match self.editor {
                Some(command) => command@,
                None => "<unset>"@,
            },
            self.origins.editor,
        ) + setting_text("theme"@, self.theme.name@, self.origins.theme) + setting_text(
            "hooks"@,
            hooks_text(self.hooks),
            self.origins.hooks,
        )
    }

    /// Renders the effective configuration and the origin of each value;
    /// `found` says whether the configuration file is there.
    pub fn report(&self, found: bool) -> (report: String)
        requires
            self.hooks.wf(),
        ensures
            report@ == self.report_text(found),
    {
        let mut out = concat("config file: ", self.config_path.as_str());
        out.append(if found {
            " (loaded)\n\n"
        } else {
            " (not found, using defaults)\n\n"
        });
        out.append(
            setting(
                "worktrees_dir",
                self.worktrees_dir.as_str(),
                self.origins.worktrees_dir,
            ).as_str(),
        );
        out.append(self.report_dirs().as_str());
        out.append(
            setting(
                "run_fetch",
                if self.run_fetch {
                    "true"
                } else {
                    "false"
                },
                self.origins.run_fetch,
            ).as_str(),
        );
        out.append(
            setting(
                "backend",
                match self.backend {
                    Backend::Git => "git",
                    Backend::Jujutsu => "jujutsu",
                },
                self.origins.backend,
            ).as_str(),
        );
        out.append(
            setting(
                "editor",
                match &self.editor {
                    Some(command) => command.as_str(),
                    None => "<unset>",
                },
                self.origins.editor,
            ).as_str(),
        );
        out.append(setting("theme", self.theme.name, self.origins.theme).as_str());
        out.append(setting("hooks", self.hooks_summary().as_str(), self.origins.hooks).as_str());
        out
    }

    fn report_dirs(&self) -> (text: String)
        ensures
            text@ == self.dirs_text(),
    {
        let first = if self.repos_dirs.len() == 0 {
            ""
        } else {
            self.repos_dirs[0].as_str()
        };
        proof {
            reveal_strlit("");
            assert(""@ =~= Seq::<char>::empty());
        }
        let mut out = setting("repos_dirs", first, self.origins.repos_dirs);
        let ghost head = out@;
        let mut i: usize = if self.repos_dirs.len() == 0 {
            0
        } else {
            1
        };
        assert(head + more_dirs(self.repos_dirs@.take(i as int)) =~= head);
        while i < self.repos_dirs.len()
            invariant
                1 <= i || self.repos_dirs@.len() == 0,
                i <= self.repos_dirs@.len(),
                out@ == head + more_dirs(self.repos_dirs@.take(i as int)),
            decreases self.repos_dirs.len() - i,
        {
            let ghost now = self.repos_dirs@.take(i + 1);
            assert(now.drop_last() =~= self.repos_dirs@.take(i as int));
            assert(now.last() == self.repos_dirs@[i as int]);
            out.append(pad_end("", 14).as_str());
            out.append("   ");
            out.append(self.repos_dirs[i].as_str());
            out.append("\n");
            assert(out@ =~= head + more_dirs(now));
            i = i + 1;
        }
        assert(self.repos_dirs@.take(self.repos_dirs@.len() as int) =~= self.repos_dirs@);
        out
    }

    /// What will run after a space is created, in words.
    fn hooks_summary(&self) -> (text: String)
        requires
            self.hooks.wf(),
        ensures
            text@ == hooks_text(self.hooks),
    {
        let counts = self.hooks.counts();
        let configured = if counts.is_empty() {
            "none configured".to_owned()
        } else {
            let mut text = decimal(counts.copies as u64);
            text.append(" file(s) copied, ");
            text.append(decimal(counts.commands as u64).as_str());
            text.append(" command(s), ");
            text.append(decimal(counts.repos as u64).as_str());
            text.append(" repo(s) with their own");
            text
        };
        if self.hooks.enabled() {
            configured
        } else {
            let mut text = concat("disabled (", configured.as_str());
            text.append(")");
            text
        }
    }
}

// ---------------------------------------------------------------------------
// Laws
// ---------------------------------------------------------------------------

/// A setting takes its value from the highest layer that says anything: the
/// parsed value over the file, the file over the default.
pub proof fn law_the_highest_layer_wins(
    source: Option<Origin>,
    parsed: Option<String>,
    file: Option<String>,
)
    requires
        source matches Some(origin) ==> origin.rank() > Origin::ConfigFile.rank(),
    ensures
        ({
            let speaks = source is Some && parsed is Some && !is_blank(parsed->0@);
            let (value, origin) = pick(source, parsed, file);
            &&& speaks ==> value == parsed && Some(origin) == source
            &&& !speaks && file is Some ==> value == file && origin == Origin::ConfigFile
            &&& !speaks && file is None ==> value is None && origin == Origin::Default
            &&& file is Some ==> origin.rank() >= Origin::ConfigFile.rank()
        }),
{
}

/// What the parser made up itself never beats the configuration file.
pub proof fn law_a_made_up_value_loses(parsed: Option<String>, file: Option<String>)
    ensures
        pick(clap_origin(Some(ValueSource::MadeUp)), parsed, file) == pick_file(file),
        pick(clap_origin(None), parsed, file) == pick_file(file),
{
}

/// A blank value is no choice: it falls through to the next layer.
pub proof fn law_a_blank_value_falls_through(
    source: Option<Origin>,
    parsed: String,
    file: Option<String>,
)
    requires
        is_blank(parsed@),
    ensures
        pick(source, Some(parsed), file) == pick_file(file),
{
}

/// A list tolerates entries that are gone as long as one is left; every entry is
/// used or accounted for; and a single entry that is gone is an error of its own.
pub proof fn law_a_list_tolerates_stale_entries(probes: Seq<DirProbe>, label: Seq<char>)
    ensures
        usable(probes).len() > 0 <==> exists|i: int|
            0 <= i < probes.len() && dir_of(#[trigger] probes[i]) is Ok,
        usable(probes).len() + reasons(probes).len() == probes.len(),
        probes.len() == 1 ==> (dir_of(probes[0]) matches Err(reason) ==> nothing_usable(
            label,
            reasons(probes),
        ) == label + ": "@ + reason),
    decreases probes.len(),
{
    if probes.len() > 0 {
        let before = probes.drop_last();
        law_a_list_tolerates_stale_entries(before, label);
        if usable(before).len() > 0 {
            let i = choose|i: int| 0 <= i < before.len() && dir_of(#[trigger] before[i]) is Ok;
            assert(dir_of(probes[i]) is Ok);
        }
        if exists|i: int| 0 <= i < probes.len() && dir_of(#[trigger] probes[i]) is Ok {
            let i = choose|i: int| 0 <= i < probes.len() && dir_of(#[trigger] probes[i]) is Ok;
            if i < before.len() {
                assert(dir_of(before[i]) is Ok);
            }
        }
        if dir_of(probes.last()) is Ok {
            assert(dir_of(probes[probes.len() - 1]) is Ok);
        }
        if probes.len() == 1 {
            assert(reasons(before).len() == 0);
        }
    }
}

/// A value says nothing where there is nothing in it but white space.
pub proof fn law_white_space_says_nothing(value: Seq<char>)
    ensures
        is_blank(value) <==> forall|i: int| 0 <= i < value.len() ==> is_white(#[trigger] value[i]),
{
    law_trimming_takes_the_blanks_off_the_ends(value);
    let t = trim_of(value);
    let from = choose|from: int|
        0 <= from && from + t.len() <= value.len() && #[trigger] value.subrange(
            from,
            from + t.len(),
        ) == t && (forall|i: int| 0 <= i < from ==> is_white(#[trigger] value[i])) && forall|
            i: int,
        | from + t.len() <= i < value.len() ==> is_white(#[trigger] value[i]);
    if t.len() > 0 {
        assert(value[from] == t[0]);
    }
}

/// The repository directories are those of the highest layer that names any, and
/// all of them that say something, in order; layers are never mixed.
pub proof fn law_the_directories_are_those_of_one_layer(
    source: Option<Origin>,
    parsed: Seq<String>,
    file: Seq<String>,
)
    ensures
        ({
            let speaks = source is Some && exists|i: int|
                0 <= i < parsed.len() && !is_blank((#[trigger] parsed[i])@);
            let (dirs, origin) = pick_dirs(source, parsed, file);
            &&& speaks ==> Some(origin) == source && dirs.len() > 0 && forall|i: int|
                0 <= i < parsed.len() && !is_blank((#[trigger] parsed[i])@) ==> dirs.contains(
                    parsed[i],
                )
            &&& speaks ==> forall|k: int|
                0 <= k < dirs.len() ==> parsed.contains(#[trigger] dirs[k]) && !is_blank(dirs[k]@)
            &&& !speaks && file.len() > 0 ==> dirs == file && origin == Origin::ConfigFile
            &&& !speaks && file.len() == 0 ==> dirs.len() == 0 && origin == Origin::Default
        }),
{
    broadcast use vstd::seq_lib::group_filter_ensures;

    let keep = |dir: String| !is_blank(dir@);
    let kept = given(parsed);
    assert forall|i: int| 0 <= i < parsed.len() && !is_blank((#[trigger] parsed[i])@) implies
        kept.contains(parsed[i]) by {
        assert(keep(parsed[i]));
    }
    assert forall|k: int| 0 <= k < kept.len() implies parsed.contains(#[trigger] kept[k])
        && !is_blank(kept[k]@) by {
        assert(keep(kept[k]));
        parsed.lemma_filter_contains_rev(keep, kept[k]);
    }
    if exists|i: int| 0 <= i < parsed.len() && !is_blank((#[trigger] parsed[i])@) {
        let i = choose|i: int| 0 <= i < parsed.len() && !is_blank((#[trigger] parsed[i])@);
        assert(kept.contains(parsed[i]));
    } else if kept.len() > 0 {
        assert(parsed.contains(kept[0]));
        let i = choose|i: int| 0 <= i < parsed.len() && parsed[i] == kept[0];
        assert(!is_blank(parsed[i]@));
    }
}

/// The layers cannot be merged without a worktrees directory, without a
/// repository directory, or with a scheme that nobody knows; the first of these
/// is told, and where the user would have to mend it.
pub proof fn law_a_missing_setting_is_told(
    cli: Cli,
    sources: Sources,
    config: Config,
    path: Seq<char>,
)
    ensures
        ({
            let named = (sources.worktrees_dir is Some && cli.worktrees_dir is Some && !is_blank(
                cli.worktrees_dir->0@,
            )) || config.worktrees_dir is Some;
            let dirs = pick_dirs(sources.repos_dirs, cli.repos_dirs@, config.repos_dirs@).0;
            let (theme, origin) = pick(sources.theme, cli.theme, config.theme);
            let why = refusal(cli, sources, config, path);
            &&& !named ==> why == Some(
                "no worktrees directory given: pass --worktrees-dir, set SHANTI_WORKTREES_DIR, or add worktrees_dir to "@
                    + path,
            )
            &&& named && dirs.len() == 0 ==> why == Some(
                "no repository directory given: pass --repos-dir, set SHANTI_REPOS_DIR, or add repos_dirs to "@
                    + path,
            )
            &&& named && dirs.len() > 0 ==> (why is Some <==> theme is Some && !is_known_scheme(
                theme->0@,
            ))
            &&& named && dirs.len() > 0 && why is Some ==> why == Some(
                "--theme"@ + (match origin {
                    Origin::ConfigFile => " (from the config file)"@,
                    Origin::Environment => " (from the environment)"@,
                    _ => Seq::<char>::empty(),
                }) + ": "@ + unknown_scheme_text(theme->0@),
            )
        }),
{
    assert("--theme"@ + Seq::<char>::empty() =~= "--theme"@);
}

/// Hooks are switched off by the command line first, then by the environment.
pub proof fn law_who_switched_hooks_off(no_hooks: bool, skip: Option<String>)
    ensures
        hooks_origin(no_hooks, skip) == Origin::CommandLine <==> no_hooks,
        hooks_origin(no_hooks, skip) == Origin::Environment <==> !no_hooks && skip_requested(skip),
        hooks_origin(no_hooks, skip) == Origin::ConfigFile <==> !no_hooks && !skip_requested(skip),
{
}

/// A directory is used where it is one, under its absolute path; every way not to
/// be one is told.
pub proof fn law_a_directory_that_is_none_is_told(probe: DirProbe)
    ensures
        dir_of(probe) is Ok <==> probe is Found,
        probe matches DirProbe::Found { path } ==> dir_of(probe) == Ok::<Seq<char>, Seq<char>>(
            path@,
        ),
        probe matches DirProbe::NotDirectory { canonical } ==> dir_of(probe) == Err::<
            Seq<char>,
            Seq<char>,
        >("'"@ + canonical@ + "' is not a directory"@),
        probe matches DirProbe::CannotOpen { expanded, error } ==> dir_of(probe) == Err::<
            Seq<char>,
            Seq<char>,
        >("could not open directory '"@ + expanded@ + "': "@ + error@),
        probe matches DirProbe::NoHome { dir, error } ==> dir_of(probe) == Err::<
            Seq<char>,
            Seq<char>,
        >("could not expand '~' in '"@ + dir@ + "': "@ + error@),
        probe matches DirProbe::NotText { shown } ==> dir_of(probe) == Err::<Seq<char>, Seq<char>>(
            "path is not valid UTF-8: '"@ + shown@ + "'"@,
        ),
{
}

/// Each directory of a list is used or skipped by itself, in its place: what
/// stands before and after it makes no difference.
pub proof fn law_each_directory_is_looked_at_by_itself(probes: Seq<DirProbe>, more: Seq<DirProbe>)
    ensures
        usable(probes + more) == usable(probes) + usable(more),
        reasons(probes + more) == reasons(probes) + reasons(more),
        probes.len() == 1 ==> (probes[0] matches DirProbe::Found { path } ==> usable(probes)
            == seq![path@] && reasons(probes).len() == 0),
        probes.len() == 1 && !(probes[0] is Found) ==> usable(probes).len() == 0 && reasons(probes)
            == seq![dir_of(probes[0])->Err_0],
    decreases more.len(),
{
    if more.len() == 0 {
        assert(probes + more =~= probes);
        assert(usable(probes) + usable(more) =~= usable(probes));
        assert(reasons(probes) + reasons(more) =~= reasons(probes));
    } else {
        law_each_directory_is_looked_at_by_itself(probes, more.drop_last());
        assert((probes + more).drop_last() =~= probes + more.drop_last());
        assert(usable(probes + more) =~= usable(probes) + usable(more));
        assert(reasons(probes + more) =~= reasons(probes) + reasons(more));
    }
    if probes.len() == 1 {
        assert(probes.drop_last() =~= Seq::<DirProbe>::empty());
        assert(usable(probes.drop_last()).len() == 0);
        assert(reasons(probes.drop_last()).len() == 0);
    }
}

/// Where not one directory can be used, the reason of every one is told: a single
/// one beside the setting, several each on a line of its own.
pub proof fn law_every_reason_is_told(label: Seq<char>, why: Seq<Seq<char>>, last: Seq<char>)
    ensures
        nothing_usable(label, seq![last]) == label + ": "@ + last,
        why.len() > 0 ==> nothing_usable(label, why.push(last)) == label
            + ": none of the repository directories could be opened:"@ + listed(why) + "\n  "@
            + last,
        listed(why.push(last)) == listed(why) + "\n  "@ + last,
        listed(Seq::<Seq<char>>::empty()) == Seq::<char>::empty(),
{
    assert(why.push(last).drop_last() =~= why);
    assert(label + ": none of the repository directories could be opened:"@ + (listed(why)
        + "\n  "@ + last) =~= label + ": none of the repository directories could be opened:"@
        + listed(why) + "\n  "@ + last);
}

/// The worktrees directory is used where it is there or could be made, and else
/// the setting and the reason are told.
pub proof fn law_the_worktrees_directory_is_made(probe: WorktreesProbe, label: Seq<char>)
    ensures
        worktrees_of(probe, label) is Ok <==> (probe matches WorktreesProbe::Made {
            probe: made,
        } && made is Found),
        probe matches WorktreesProbe::Made { probe: made } ==> (made matches DirProbe::Found {
            path,
        } ==> worktrees_of(probe, label) == Ok::<Seq<char>, Seq<char>>(path@)),
        probe matches WorktreesProbe::Made { probe: made } ==> (!(made is Found) ==> worktrees_of(
            probe,
            label,
        ) == Err::<Seq<char>, Seq<char>>(label + ": "@ + dir_of(made)->Err_0)),
        probe matches WorktreesProbe::NoHome { dir, error } ==> worktrees_of(probe, label) == Err::<
            Seq<char>,
            Seq<char>,
        >(label + ": could not expand '~' in '"@ + dir@ + "': "@ + error@),
        probe matches WorktreesProbe::NotCreated { expanded, error } ==> worktrees_of(probe, label)
            == Err::<Seq<char>, Seq<char>>(
            label + ": could not create '"@ + expanded@ + "': "@ + error@,
        ),
{
}

/// A line of the report names a setting, its value and the layer it came from.
pub proof fn law_a_setting_is_reported_with_its_layer(
    name: Seq<char>,
    value: Seq<char>,
    origin: Origin,
)
    ensures
        setting_text(name, value, origin) == padded(name, 14) + " = "@ + value + "  ("@ + (
        match origin {
            Origin::Default => "built-in default"@,
            Origin::ConfigFile => "config file"@,
            Origin::Environment => "environment"@,
            Origin::CommandLine => "command line"@,
        }) + ")\n"@,
{
}

/// The report counts what hooks there are, and says so where they are switched
/// off.
pub proof fn law_the_report_counts_the_hooks(hooks: HookSettings)
    ensures
        ({
            let copies = hooks.config.hooks.copy@.len();
            let commands = hooks.config.hooks.run@.len();
            let repos = repos_with_hooks(hooks.config.repos@);
            let counted = decimal_of(copies) + " file(s) copied, "@ + decimal_of(commands)
                + " command(s), "@ + decimal_of(repos) + " repo(s) with their own"@;
            let none = copies == 0 && commands == 0 && repos == 0;
            &&& hooks.enabled && none ==> hooks_text(hooks) == "none configured"@
            &&& hooks.enabled && !none ==> hooks_text(hooks) == counted
            &&& !hooks.enabled && none ==> hooks_text(hooks) == "disabled ("@ + "none configured"@
                + ")"@
            &&& !hooks.enabled && !none ==> hooks_text(hooks) == "disabled ("@ + counted + ")"@
        }),
{
}

/// Every repository directory is reported: the first beside the setting, every
/// other on a line of its own.
pub proof fn law_every_directory_is_reported(dirs: Seq<String>, last: String)
    ensures
        dirs.len() > 0 ==> more_dirs(dirs.push(last)) == more_dirs(dirs) + padded(
            Seq::<char>::empty(),
            14,
        ) + "   "@ + last@ + "\n"@,
        more_dirs(seq![last]) == Seq::<char>::empty(),
{
    assert(dirs.push(last).drop_last() =~= dirs);
    reveal_strlit("");
    assert(""@ =~= Seq::<char>::empty());
}

/// The report says which file was read, or that there was none, and then every
/// setting in the order they are documented in.
pub proof fn law_the_report_holds_every_setting(args: Args, found: bool)
    ensures
        args.report_text(found) == "config file: "@ + args.config_path@ + (if found {
            " (loaded)\n\n"@
        } else {
            " (not found, using defaults)\n\n"@
        }) + setting_text("worktrees_dir"@, args.worktrees_dir@, args.origins.worktrees_dir)
            + args.dirs_text() + setting_text(
            "run_fetch"@,
            if args.run_fetch {
                "true"@
            } else {
                "false"@
            },
            args.origins.run_fetch,
        ) + setting_text(
            "backend"@,
            if args.backend is Git {
                "git"@
            } else {
                "jujutsu"@
            },
            args.origins.backend,
        ) + setting_text(
            "editor"@,
            if args.editor is Some {
                args.editor->0@
            } else {
                "<unset>"@
            },
            args.origins.editor,
        ) + setting_text("theme"@, args.theme.name@, args.origins.theme) + setting_text(
            "hooks"@,
            hooks_text(args.hooks),
            args.origins.hooks,
        ),
        args.repos_dirs@.len() > 0 ==> args.dirs_text() == setting_text(
            "repos_dirs"@,
            args.repos_dirs@[0]@,
            args.origins.repos_dirs,
        ) + more_dirs(args.repos_dirs@),
{
}

/// What was typed comes from the command line, what was exported from the
/// environment, and what the parser fills in from nobody; the layers stand in this
/// order.
pub proof fn law_a_value_belongs_to_who_gave_it(source: ValueSource)
    ensures
        source is CommandLine ==> clap_origin(Some(source)) == Some(Origin::CommandLine),
        source is EnvVariable ==> clap_origin(Some(source)) == Some(Origin::Environment),
        source is MadeUp ==> clap_origin(Some(source)) is None,
        Origin::CommandLine.rank() > Origin::Environment.rank(),
        Origin::Environment.rank() > Origin::ConfigFile.rank(),
        Origin::ConfigFile.rank() > Origin::Default.rank(),
{
}

/// A setting is named together with the layer that has to be edited, unless it was
/// typed.
pub proof fn law_a_setting_is_named_with_its_layer(flag: Seq<char>, origin: Origin)
    ensures
        origin == Origin::ConfigFile ==> label_text(flag, origin) == flag
            + " (from the config file)"@,
        origin == Origin::Environment ==> label_text(flag, origin) == flag
            + " (from the environment)"@,
        origin == Origin::CommandLine || origin == Origin::Default ==> label_text(flag, origin)
            == flag,
{
}

} // verus!
