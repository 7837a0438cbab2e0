//! What runs once a new space exists: files carried over, then commands.
//!
//! A plan is selected from the configuration and split into steps. Carrying a
//! step out is left to the caller; what each step came to, and what the whole
//! is reported as, is decided here.

use vstd::prelude::*;

use crate::config::{keys_differ, Config, ConfigRead, Hooks, RepoEntry};
use crate::github::{join_path, opt_text, path_in};
use crate::text::{
    concat, decimal, decimal_of, lossy, lossy_text, parts_of, signed_decimal, signed_decimal_of, split,
    starts_with, views, has_prefix,
};
use crate::vcs::Backend;

verus! {

/// Environment variable that skips every hook for one invocation.
pub const SKIP_ENV: &'static str = "SHANTI_NO_HOOKS";

/// How many bytes of a failing command's output are kept.
pub const MAX_CAPTURED_OUTPUT: usize = 8192;

/// Everything a hook is told about the space that was just created.
#[derive(Debug, PartialEq, Eq)]
pub struct HookTarget {
    /// Absolute path of the new space; also where hooks run.
    pub space_path: String,
    /// The branch or bookmark the space was created for.
    pub space_name: String,
    /// Absolute path of the repository.
    pub repo_path: String,
    /// The repository's display name.
    pub repo_name: String,
    /// Which backend created the space.
    pub backend: Backend,
}

impl Clone for HookTarget {
    fn clone(&self) -> (copy: Self)
        ensures
            copy == *self,
    {
        HookTarget {
            space_path: self.space_path.clone(),
            space_name: self.space_name.clone(),
            repo_path: self.repo_path.clone(),
            repo_name: self.repo_name.clone(),
            backend: self.backend,
        }
    }
}

/// The variables and values of an environment.
pub open spec fn env_view(env: Seq<(&'static str, String)>) -> Seq<(Seq<char>, Seq<char>)> {
    env.map_values(|pair: (&'static str, String)| (pair.0@, pair.1@))
}

impl HookTarget {
    /// The environment of every hook command.
    pub open spec fn env_of(self) -> Seq<(Seq<char>, Seq<char>)> {
        seq![
            ("SHANTI_SPACE_PATH"@, self.space_path@),
            ("SHANTI_SPACE_NAME"@, self.space_name@),
            ("SHANTI_REPO_PATH"@, self.repo_path@),
            ("SHANTI_REPO_NAME"@, self.repo_name@),
            ("SHANTI_BACKEND"@, self.backend.label()@),
        ]
    }

    /// The environment every hook command is given, as `(name, value)` pairs.
    pub fn env(&self) -> (env: Vec<(&'static str, String)>)
        ensures
            env_view(env@) == self.env_of(),
    {
        let mut env: Vec<(&'static str, String)> = Vec::new();
        env.push(("SHANTI_SPACE_PATH", self.space_path.clone()));
        env.push(("SHANTI_SPACE_NAME", self.space_name.clone()));
        env.push(("SHANTI_REPO_PATH", self.repo_path.clone()));
        env.push(("SHANTI_REPO_NAME", self.repo_name.clone()));
        env.push(("SHANTI_BACKEND", self.backend.label().to_owned()));
        assert(env_view(env@) =~= self.env_of());
        env
    }
}

// ---------------------------------------------------------------------------
// Settings
// ---------------------------------------------------------------------------

/// The configured hooks, and whether they may run.
#[derive(Debug, PartialEq, Eq)]
pub struct HookSettings {
    pub config: Config,
    pub enabled: bool,
}

impl HookSettings {
    pub open spec fn wf(self) -> bool {
        self.config.wf()
    }
}

/// Whether this invocation asked for hooks to be skipped: any value but an
/// empty one counts.
pub open spec fn skip_requested(value: Option<String>) -> bool {
    value matches Some(text) && text@.len() > 0
}

/// Where the settings kept under `key` stand: the first entry that has it.
pub open spec fn entry_of(repos: Seq<RepoEntry>, key: Seq<char>) -> Option<int>
    decreases repos.len(),
{
    if repos.len() == 0 {
        None
    } else {
        match entry_of(repos.drop_last(), key) {
            Some(i) => Some(i),
            None => if repos.last().key@ == key {
                Some(repos.len() - 1)
            } else {
                None
            },
        }
    }
}

/// The hooks kept under `key`, or none.
pub open spec fn keyed(config: Config, key: Seq<char>) -> Seq<Hooks> {
    match entry_of(config.repos@, key) {
        Some(i) => seq![config.repos@[i].config.hooks],
        None => Seq::empty(),
    }
}

/// The hook lists that apply to a repository, in the order they run: the
/// global one, the one kept under its name, the one kept under its path.
pub open spec fn applicable(config: Config, name: Seq<char>, path: Seq<char>) -> Seq<Hooks> {
    seq![config.hooks] + keyed(config, name) + keyed(config, path)
}

/// The files those lists carry over, one list after the other.
pub open spec fn all_copies(lists: Seq<Hooks>) -> Seq<String>
    decreases lists.len(),
{
    if lists.len() == 0 {
        Seq::empty()
    } else {
        all_copies(lists.drop_last()) + lists.last().copy@
    }
}

/// The commands those lists run, one list after the other.
pub open spec fn all_commands(lists: Seq<Hooks>) -> Seq<String>
    decreases lists.len(),
{
    if lists.len() == 0 {
        Seq::empty()
    } else {
        all_commands(lists.drop_last()) + lists.last().run@
    }
}

/// How many repositories have hooks of their own.
pub open spec fn repos_with_hooks(repos: Seq<RepoEntry>) -> nat
    decreases repos.len(),
{
    if repos.len() == 0 {
        0
    } else {
        repos_with_hooks(repos.drop_last()) + (if repos.last().config.hooks.is_empty() {
            0nat
        } else {
            1
        })
    }
}

/// The names and paths under which hooks of a repository's own are kept.
pub open spec fn hooked_keys(repos: Seq<RepoEntry>) -> Set<Seq<char>> {
    Set::new(
        |key: Seq<char>|
            exists|i: int|
                0 <= i < repos.len() && (#[trigger] repos[i]).key@ == key
                    && !repos[i].config.hooks.is_empty(),
    )
}

proof fn lemma_hooked_keys(repos: Seq<RepoEntry>)
    requires
        keys_differ(repos),
    ensures
        hooked_keys(repos).finite(),
        hooked_keys(repos).len() == repos_with_hooks(repos),
    decreases repos.len(),
{
    if repos.len() == 0 {
        assert(hooked_keys(repos) =~= Set::empty());
    } else {
        let init = repos.drop_last();
        let last = repos.last();
        assert(keys_differ(init)) by {
            assert forall|i: int, j: int| 0 <= i < j < init.len() implies (#[trigger] init[i]).key@
                != (#[trigger] init[j]).key@ by {
                assert(repos[i].key@ != repos[j].key@);
            }
        }
        lemma_hooked_keys(init);
        assert(!hooked_keys(init).contains(last.key@)) by {
            assert forall|i: int| 0 <= i < init.len() implies (#[trigger] init[i]).key@
                != last.key@ by {
                assert(repos[i].key@ != repos[repos.len() - 1].key@);
            }
        }
        let grown = if last.config.hooks.is_empty() {
            hooked_keys(init)
        } else {
            hooked_keys(init).insert(last.key@)
        };
        assert forall|key: Seq<char>| hooked_keys(repos).contains(key) == grown.contains(key) by {
            if hooked_keys(init).contains(key) {
                let i = choose|i: int|
                    0 <= i < init.len() && (#[trigger] init[i]).key@ == key
                        && !init[i].config.hooks.is_empty();
                assert(repos[i] == init[i]);
            }
            if hooked_keys(repos).contains(key) {
                let i = choose|i: int|
                    0 <= i < repos.len() && (#[trigger] repos[i]).key@ == key
                        && !repos[i].config.hooks.is_empty();
                if i < init.len() {
                    assert(init[i] == repos[i]);
                }
            }
            if key == last.key@ && !last.config.hooks.is_empty() {
                assert(repos[repos.len() - 1].key@ == key);
            }
        }
        assert(hooked_keys(repos) =~= grown);
    }
}

proof fn lemma_entry_of(repos: Seq<RepoEntry>, key: Seq<char>)
    ensures
        match entry_of(repos, key) {
            Some(i) => 0 <= i < repos.len() && repos[i].key@ == key && forall|j: int|
                0 <= j < i ==> (#[trigger] repos[j]).key@ != key,
            None => forall|j: int| 0 <= j < repos.len() ==> (#[trigger] repos[j]).key@ != key,
        },
    decreases repos.len(),
{
    if repos.len() > 0 {
        let init = repos.drop_last();
        lemma_entry_of(init, key);
        if entry_of(init, key) is None {
            assert forall|j: int| 0 <= j < repos.len() - 1 implies (#[trigger] repos[j]).key@ != key by {
                assert(init[j] == repos[j]);
            }
        } else {
            let i = entry_of(init, key)->0;
            assert forall|j: int| 0 <= j < i implies (#[trigger] repos[j]).key@ != key by {
                assert(init[j] == repos[j]);
            }
        }
    }
}

/// Appends copies of `more`.
fn extend(list: &mut Vec<String>, more: &Vec<String>)
    ensures
        final(list)@ == old(list)@ + more@,
{
    let ghost before = list@;
    let mut i: usize = 0;
    assert(before + more@.take(0) =~= before);
    while i < more.len()
        invariant
            i <= more@.len(),
            list@ == before + more@.take(i as int),
        decreases more.len() - i,
    {
        list.push(more[i].clone());
        assert(before + more@.take(i + 1) =~= (before + more@.take(i as int)).push(more@[i as int]));
        i = i + 1;
    }
    assert(more@.take(more@.len() as int) =~= more@);
}

impl HookSettings {
    /// Takes the hooks from the configuration file, unless this invocation asked
    /// for them to be skipped.
    pub fn load(path: &str, read: ConfigRead, skip: Option<String>) -> (settings: Result<
        HookSettings,
        String,
    >)
        requires
            read.wf(),
        ensures
            settings matches Ok(s) ==> s.wf(),
            match read {
                ConfigRead::Missing => settings matches Ok(s) && s.config.is_default() && s.enabled
                    == !skip_requested(skip),
                ConfigRead::Unreadable { error } => settings matches Err(text) && text@
                    == "Could not read the configuration file "@ + path@ + ": "@ + error@,
                ConfigRead::Invalid { error } => settings matches Err(text) && text@
                    == "Invalid configuration file "@ + path@ + ": "@ + error@,
                ConfigRead::Parsed { config } => match crate::config::rejection(config, path@) {
                    Some(reason) => settings matches Err(text) && text@ == reason,
                    None => settings == Ok::<HookSettings, String>(
                        HookSettings { config, enabled: !skip_requested(skip) },
                    ),
                },
            },
    {
        match Config::load(path, read) {
            Ok(config) => Ok(HookSettings::from_config(config, skip)),
            Err(text) => Err(text),
        }
    }

    /// Settings from a configuration already in hand; `skip` is the value of
    /// [`SKIP_ENV`].
    pub fn from_config(config: Config, skip: Option<String>) -> (settings: HookSettings)
        requires
            config.wf(),
        ensures
            settings.wf(),
            settings == (HookSettings { config, enabled: !skip_requested(skip) }),
    {
        let skipped = match &skip {
            Some(text) => !text.as_str().is_empty(),
            None => false,
        };
        HookSettings { config, enabled: !skipped }
    }

    /// Whether hooks will run at all.
    #[verifier::allow_in_spec]
    pub fn enabled(&self) -> bool
        returns
            self.enabled,
    {
        self.enabled
    }

    /// How much is configured.
    pub fn counts(&self) -> (counts: HookCounts)
        requires
            self.wf(),
        ensures
            counts.copies == self.config.hooks.copy@.len(),
            counts.commands == self.config.hooks.run@.len(),
            counts.repos == repos_with_hooks(self.config.repos@),
            counts.repos == hooked_keys(self.config.repos@).len(),
    {
        proof {
            law_every_repository_is_counted_once(self.config);
        }
        let repos = &self.config.repos;
        let mut n: usize = 0;
        let mut i: usize = 0;
        assert(repos@.take(0) =~= Seq::<RepoEntry>::empty());
        while i < repos.len()
            invariant
                i <= repos@.len(),
                n <= i,
                n == repos_with_hooks(repos@.take(i as int)),
            decreases repos.len() - i,
        {
            assert(repos@.take(i + 1).drop_last() =~= repos@.take(i as int));
            assert(repos@.take(i + 1).last() == repos@[i as int]);
            if !repos[i].config.hooks.is_empty() {
                n = n + 1;
            }
            i = i + 1;
        }
        assert(repos@.take(repos@.len() as int) =~= repos@);
        HookCounts {
            copies: self.config.hooks.copy.len(),
            commands: self.config.hooks.run.len(),
            repos: n,
        }
    }

    /// The same configuration, with nothing allowed to run.
    pub fn switched_off(self) -> (off: HookSettings)
        ensures
            off == (HookSettings { config: self.config, enabled: false }),
    {
        HookSettings { config: self.config, enabled: false }
    }

    /// Settings that run nothing and hold nothing.
    pub fn disabled() -> (settings: HookSettings)
        ensures
            !settings.enabled,
            settings.config.is_default(),
            settings.wf(),
    {
        HookSettings { config: Config::default(), enabled: false }
    }

    /// Whether `plan` is what should run after `target` was created.
    pub open spec fn planned(self, target: HookTarget, plan: HookPlan) -> bool {
        &&& plan.target == target
        &&& plan.copies@ == (if self.enabled {
            all_copies(applicable(self.config, target.repo_name@, target.repo_path@))
        } else {
            Seq::empty()
        })
        &&& plan.commands@ == (if self.enabled {
            all_commands(applicable(self.config, target.repo_name@, target.repo_path@))
        } else {
            Seq::empty()
        })
    }

    /// What should run after `target` was created: nothing unless hooks are
    /// enabled, and then the global lists before the repository's own.
    pub fn plan(&self, target: HookTarget) -> (plan: HookPlan)
        ensures
            self.planned(target, plan),
    {
        let mut copies: Vec<String> = Vec::new();
        let mut commands: Vec<String> = Vec::new();
        if self.enabled {
            let lists = self.hooks_for(&target);
            let ghost wanted = applicable(self.config, target.repo_name@, target.repo_path@);
            let mut i: usize = 0;
            assert(wanted.take(0) =~= Seq::<Hooks>::empty());
            while i < lists.len()
                invariant
                    i <= lists@.len() == wanted.len(),
                    forall|k: int| 0 <= k < lists@.len() ==> *(#[trigger] lists@[k]) == wanted[k],
                    copies@ == all_copies(wanted.take(i as int)),
                    commands@ == all_commands(wanted.take(i as int)),
                decreases lists.len() - i,
            {
                assert(wanted.take(i + 1).drop_last() =~= wanted.take(i as int));
                assert(wanted.take(i + 1).last() == wanted[i as int]);
                assert(*lists@[i as int] == wanted[i as int]);
                extend(&mut copies, &lists[i].copy);
                extend(&mut commands, &lists[i].run);
                i = i + 1;
            }
            assert(wanted.take(wanted.len() as int) =~= wanted);
        }
        HookPlan { target, copies, commands }
    }

    fn lookup(&self, key: &str) -> (found: Option<&Hooks>)
        ensures
            match found {
                Some(hooks) => keyed(self.config, key@) == seq![*hooks],
                None => keyed(self.config, key@) == Seq::<Hooks>::empty(),
            },
    {
        let mut i: usize = 0;
        while i < self.config.repos.len()
            invariant
                i <= self.config.repos@.len(),
                forall|j: int| 0 <= j < i ==> (#[trigger] self.config.repos@[j]).key@ != key@,
            decreases self.config.repos.len() - i,
        {
            if crate::text::same_text(self.config.repos[i].key.as_str(), key) {
                proof {
                    lemma_entry_of(self.config.repos@, key@);
                }
                return Some(&self.config.repos[i].config.hooks);
            }
            i = i + 1;
        }
        proof {
            lemma_entry_of(self.config.repos@, key@);
        }
        None
    }

    /// The hook lists that apply to `target`, in the order they run.
    fn hooks_for(&self, target: &HookTarget) -> (lists: Vec<&Hooks>)
        ensures
            lists@.len() == applicable(self.config, target.repo_name@, target.repo_path@).len(),
            forall|k: int|
                0 <= k < lists@.len() ==> *(#[trigger] lists@[k]) == applicable(
                    self.config,
                    target.repo_name@,
                    target.repo_path@,
                )[k],
    {
        let mut lists: Vec<&Hooks> = Vec::new();
        lists.push(&self.config.hooks);
        if let Some(hooks) = self.lookup(target.repo_name.as_str()) {
            lists.push(hooks);
        }
        if let Some(hooks) = self.lookup(target.repo_path.as_str()) {
            lists.push(hooks);
        }
        lists
    }
}

/// What is configured, without saying what it is.
#[derive(Debug, Clone, Copy, PartialEq, Eq, Structural)]
pub struct HookCounts {
    /// Files the global table carries over.
    pub copies: usize,
    /// Commands the global table runs.
    pub commands: usize,
    /// Repositories with hooks of their own.
    pub repos: usize,
}

impl HookCounts {
    /// Whether nothing at all is configured.
    #[verifier::allow_in_spec]
    pub fn is_empty(&self) -> bool
        returns
            self.copies == 0 && self.commands == 0 && self.repos == 0,
    {
        self.copies == 0 && self.commands == 0 && self.repos == 0
    }
}

// ---------------------------------------------------------------------------
// The plan and its steps
// ---------------------------------------------------------------------------

/// Work to do in one new space.
#[derive(Debug, PartialEq, Eq)]
pub struct HookPlan {
    pub target: HookTarget,
    /// Files to carry over from the repository root, in order.
    pub copies: Vec<String>,
    /// Shell commands to run in the space, in order, after the copies.
    pub commands: Vec<String>,
}

/// One step of a plan, ready to be carried out.
#[derive(Debug, PartialEq, Eq)]
pub enum HookStep {
    /// Copy the file `from` to `to`, making the directories it needs.
    Copy { path: String, from: String, to: String },
    /// Nothing: the path does not stay inside the repository.
    Refuse { path: String },
    /// Hand the command to a shell in the space.
    Run { command: String },
}

/// What carrying a step out came to.
#[derive(Debug, PartialEq, Eq)]
pub enum StepResult {
    /// The file to copy is not there.
    SourceMissing,
    /// The path names a directory.
    SourceIsDirectory,
    /// The file could not be looked at, its directory not made, or it not copied.
    CopyFailed { error: String },
    Copied,
    /// The command ran and succeeded.
    Succeeded,
    /// The command ran and ended with this code.
    Exited { code: i32, stdout: Vec<u8>, stderr: Vec<u8> },
    /// The command was ended by a signal, described by the system.
    Signalled { status: String, stdout: Vec<u8>, stderr: Vec<u8> },
    /// The command could not be started.
    NotStarted { error: String },
    /// There was nothing to carry out.
    Nothing,
}

/// Whether a path stays inside the directory it is relative to.
pub open spec fn stays_inside(path: Seq<char>) -> bool {
    !has_prefix(path, "/"@) && !parts_of(path, '/').contains(".."@)
}

/// Whether a path stays inside the directory it is relative to.
pub fn is_inside(path: &str) -> (yes: bool)
    ensures
        yes == stays_inside(path@),
{
    if starts_with(path, "/") {
        return false;
    }
    let parts = split(path, '/');
    let mut i: usize = 0;
    while i < parts.len()
        invariant
            i <= parts@.len(),
            views(parts@) == parts_of(path@, '/'),
            forall|k: int| 0 <= k < i ==> (#[trigger] parts@[k])@ != ".."@,
        decreases parts.len() - i,
    {
        if crate::text::same_text(parts[i].as_str(), "..") {
            assert(views(parts@)[i as int] == ".."@);
            return false;
        }
        i = i + 1;
    }
    assert(!parts_of(path@, '/').contains(".."@)) by {
        assert forall|k: int| 0 <= k < views(parts@).len() implies views(parts@)[k] != ".."@ by {
            assert(views(parts@)[k] == parts@[k]@);
        }
    }
    true
}

/// A step carries out the copy of `path`.
pub open spec fn is_copy_step(step: HookStep, target: HookTarget, path: String) -> bool {
    if stays_inside(path@) {
        step matches HookStep::Copy { path: p, from, to } && p == path && from@ == path_in(
            target.repo_path@,
            path@,
        ) && to@ == path_in(target.space_path@, path@)
    } else {
        step == (HookStep::Refuse { path })
    }
}

/// What one hook did.
#[derive(Debug, PartialEq, Eq)]
pub enum HookOutcome {
    /// A file was carried over from the repository.
    Copied { path: String },
    /// There was nothing to carry over. Not a failure.
    CopySkipped { path: String, reason: String },
    /// A copy was wanted but could not be done.
    CopyFailed { path: String, error: String },
    /// A command ran and succeeded.
    Ran { command: String },
    /// A command ran and failed, or could not be started.
    Failed { command: String, status: String, output: String },
}

/// The last [`MAX_CAPTURED_OUTPUT`] bytes of an output, as text.
pub open spec fn tail_text(bytes: Seq<u8>) -> Seq<char> {
    if bytes.len() <= MAX_CAPTURED_OUTPUT {
        lossy_text(bytes)
    } else {
        "\u{2026} (truncated)\n"@ + lossy_text(bytes.skip(bytes.len() - MAX_CAPTURED_OUTPUT))
    }
}

/// The last [`MAX_CAPTURED_OUTPUT`] bytes of an output, as text.
pub fn tail(bytes: &[u8]) -> (text: String)
    ensures
        text@ == tail_text(bytes@),
{
    if bytes.len() <= MAX_CAPTURED_OUTPUT {
        lossy(bytes)
    } else {
        let start: usize = bytes.len() - MAX_CAPTURED_OUTPUT;
        let kept = vstd::slice::slice_subrange(bytes, start, bytes.len());
        assert(kept@ =~= bytes@.skip(start as int));
        concat("\u{2026} (truncated)\n", lossy(kept).as_str())
    }
}

/// What a failing command said, its errors after its output.
fn combined(stdout: Vec<u8>, stderr: Vec<u8>) -> (text: String)
    ensures
        text@ == tail_text(stdout@ + stderr@),
{
    let ghost both = stdout@ + stderr@;
    let mut errors = stderr;
    let mut bytes = stdout;
    bytes.append(&mut errors);
    assert(bytes@ =~= both);
    tail(bytes.as_slice())
}

/// An exit status in words.
pub open spec fn status_text(result: StepResult) -> Seq<char> {
    match result {
        StepResult::Exited { code, .. } => "exit status "@ + signed_decimal_of(code as int),
        StepResult::Signalled { status, .. } => "terminated by a signal ("@ + status@ + ")"@,
        _ => "could not start"@,
    }
}

/// What a step came to is what its result says of it.
pub open spec fn is_outcome(step: HookStep, result: StepResult, outcome: HookOutcome) -> bool {
    match step {
        HookStep::Refuse { path } => outcome matches HookOutcome::CopyFailed { path: p, error }
            && p == path && error@ == "must be a relative path inside the repository"@,
        HookStep::Copy { path, from, to } => match result {
            StepResult::SourceMissing => outcome matches HookOutcome::CopySkipped {
                path: p,
                reason,
            } && p == path && reason@ == "not present in the repository"@,
            StepResult::SourceIsDirectory => outcome matches HookOutcome::CopyFailed {
                path: p,
                error,
            } && p == path && error@ == "is a directory; copy hooks carry files only"@,
            StepResult::CopyFailed { error: e } => outcome matches HookOutcome::CopyFailed {
                path: p,
                error,
            } && p == path && error == e,
            _ => outcome == (HookOutcome::Copied { path }),
        },
        HookStep::Run { command } => match result {
            StepResult::Exited { code, stdout, stderr } => outcome matches HookOutcome::Failed {
                command: c,
                status,
                output,
            } && c == command && status@ == status_text(result) && output@ == tail_text(
                stdout@ + stderr@,
            ),
            StepResult::Signalled { status: s, stdout, stderr } =>
                outcome matches HookOutcome::Failed { command: c, status, output } && c == command
                && status@ == status_text(result) && output@ == tail_text(stdout@ + stderr@),
            StepResult::NotStarted { error } => outcome matches HookOutcome::Failed {
                command: c,
                status,
                output,
            } && c == command && status@ == status_text(result) && output == error,
            _ => outcome == (HookOutcome::Ran { command }),
        },
    }
}

/// The outcome of one step.
pub fn outcome_of(step: HookStep, result: StepResult) -> (outcome: HookOutcome)
    ensures
        is_outcome(step, result, outcome),
{
    match step {
        HookStep::Refuse { path } => HookOutcome::CopyFailed {
            path,
            error: "must be a relative path inside the repository".to_owned(),
        },
        HookStep::Copy { path, from: _, to: _ } => match result {
            StepResult::SourceMissing => HookOutcome::CopySkipped {
                path,
                reason: "not present in the repository".to_owned(),
            },
            StepResult::SourceIsDirectory => HookOutcome::CopyFailed {
                path,
                error: "is a directory; copy hooks carry files only".to_owned(),
            },
            StepResult::CopyFailed { error } => HookOutcome::CopyFailed { path, error },
            _ => HookOutcome::Copied { path },
        },
        HookStep::Run { command } => match result {
            StepResult::Exited { code, stdout, stderr } => HookOutcome::Failed {
                command,
                status: concat("exit status ", signed_decimal(code).as_str()),
                output: combined(stdout, stderr),
            },
            StepResult::Signalled { status, stdout, stderr } => {
                let mut text = concat("terminated by a signal (", status.as_str());
                text.append(")");
                HookOutcome::Failed { command, status: text, output: combined(stdout, stderr) }
            },
            StepResult::NotStarted { error } => HookOutcome::Failed {
                command,
                status: "could not start".to_owned(),
                output: error,
            },
            _ => HookOutcome::Ran { command },
        },
    }
}

impl HookPlan {
    /// Whether there is nothing to do.
    #[verifier::allow_in_spec]
    pub fn is_empty(&self) -> bool
        returns
            self.copies@.len() == 0 && self.commands@.len() == 0,
    {
        self.copies.len() == 0 && self.commands.len() == 0
    }

    /// The steps of a plan: the copies in order, then the commands in order.
    pub open spec fn are_steps(self, steps: Seq<HookStep>) -> bool {
        &&& steps.len() == self.copies@.len() + self.commands@.len()
        &&& forall|i: int|
            0 <= i < self.copies@.len() ==> is_copy_step(
                #[trigger] steps[i],
                self.target,
                self.copies@[i],
            )
        &&& forall|i: int|
            0 <= i < self.commands@.len() ==> #[trigger] steps[self.copies@.len() + i] == (
            HookStep::Run { command: self.commands@[i] })
    }

    /// One copy, as a step.
    fn copy(&self, path: &String) -> (step: HookStep)
        ensures
            is_copy_step(step, self.target, *path),
    {
        if is_inside(path.as_str()) {
            HookStep::Copy {
                path: path.clone(),
                from: join_path(self.target.repo_path.as_str(), path.as_str()),
                to: join_path(self.target.space_path.as_str(), path.as_str()),
            }
        } else {
            HookStep::Refuse { path: path.clone() }
        }
    }

    /// One command, as a step. It goes to the shell unsplit; nothing about the
    /// space is ever written into it.
    fn run_command(&self, command: &String) -> (step: HookStep)
        ensures
            step == (HookStep::Run { command: *command }),
    {
        HookStep::Run { command: command.clone() }
    }

    /// The steps of this plan, in the order they are carried out.
    pub fn steps(&self) -> (steps: Vec<HookStep>)
        ensures
            self.are_steps(steps@),
    {
        let mut steps: Vec<HookStep> = Vec::new();
        let mut i: usize = 0;
        while i < self.copies.len()
            invariant
                i <= self.copies@.len(),
                steps@.len() == i,
                forall|k: int|
                    0 <= k < i ==> is_copy_step(#[trigger] steps@[k], self.target, self.copies@[k]),
            decreases self.copies.len() - i,
        {
            steps.push(self.copy(&self.copies[i]));
            i = i + 1;
        }
        let mut j: usize = 0;
        while j < self.commands.len()
            invariant
                j <= self.commands@.len(),
                steps@.len() == self.copies@.len() + j,
                forall|k: int|
                    0 <= k < self.copies@.len() ==> is_copy_step(
                        #[trigger] steps@[k],
                        self.target,
                        self.copies@[k],
                    ),
                forall|k: int|
                    0 <= k < j ==> #[trigger] steps@[self.copies@.len() + k] == (HookStep::Run {
                        command: self.commands@[k],
                    }),
            decreases self.commands.len() - j,
        {
            steps.push(self.run_command(&self.commands[j]));
            j = j + 1;
        }
        steps
    }

    /// What the plan came to, given the result of every step in order. Each
    /// step has its outcome, whatever became of the others.
    pub fn run(&self, results: Vec<StepResult>) -> (report: HookReport)
        requires
            results@.len() == self.copies@.len() + self.commands@.len(),
        ensures
            report.target == self.target,
            exists|steps: Seq<HookStep>| #[trigger]
                self.are_steps(steps) && report.outcomes@.len() == steps.len() && (forall|i: int|
                    0 <= i < steps.len() ==> is_outcome(
                        steps[i],
                        results@[i],
                        #[trigger] report.outcomes@[i],
                    )),
    {
        let mut steps = self.steps();
        let mut results = results;
        let ghost all_steps = steps@;
        let ghost all_results = results@;
        let ghost n = all_steps.len() as int;
        let mut backwards: Vec<HookOutcome> = Vec::new();
        while steps.len() > 0
            invariant
                n == all_steps.len() == all_results.len(),
                steps@.len() == results@.len() <= n,
                steps@ == all_steps.take(steps@.len() as int),
                results@ == all_results.take(results@.len() as int),
                backwards@.len() == n - steps@.len(),
                forall|k: int|
                    0 <= k < backwards@.len() ==> is_outcome(
                        all_steps[n - 1 - k],
                        all_results[n - 1 - k],
                        #[trigger] backwards@[k],
                    ),
            decreases steps.len(),
        {
            let ghost m = steps@.len() as int;
            match (steps.pop(), results.pop()) {
                (Some(step), Some(result)) => {
                    assert(step == all_steps[m - 1] && result == all_results[m - 1]);
                    backwards.push(outcome_of(step, result));
                },
                _ => {},
            }
            assert(all_steps.take(m).drop_last() =~= all_steps.take(m - 1));
            assert(all_results.take(m).drop_last() =~= all_results.take(m - 1));
        }
        let mut outcomes: Vec<HookOutcome> = Vec::new();
        let ghost reversed = backwards@;
        while backwards.len() > 0
            invariant
                n == all_steps.len() == all_results.len() == reversed.len(),
                backwards@ == reversed.take(backwards@.len() as int),
                backwards@.len() <= n,
                outcomes@.len() == n - backwards@.len(),
                forall|k: int|
                    0 <= k < n ==> is_outcome(
                        all_steps[n - 1 - k],
                        all_results[n - 1 - k],
                        #[trigger] reversed[k],
                    ),
                forall|i: int|
                    0 <= i < outcomes@.len() ==> is_outcome(
                        all_steps[i],
                        all_results[i],
                        #[trigger] outcomes@[i],
                    ),
            decreases backwards.len(),
        {
            let ghost m = backwards@.len() as int;
            if let Some(outcome) = backwards.pop() {
                assert(outcome == reversed[m - 1]);
                outcomes.push(outcome);
            }
            assert(reversed.take(m).drop_last() =~= reversed.take(m - 1));
        }
        assert(self.are_steps(all_steps));
        HookReport { target: self.target.clone(), outcomes }
    }
}

// ---------------------------------------------------------------------------
// The report
// ---------------------------------------------------------------------------

impl HookOutcome {
    /// Whether this outcome is something the user should be told about.
    #[verifier::allow_in_spec]
    pub fn is_failure(&self) -> bool
        returns
            self is CopyFailed || self is Failed,
    {
        match self {
            HookOutcome::CopyFailed { .. } | HookOutcome::Failed { .. } => true,
            _ => false,
        }
    }

    /// What this outcome was about: the command or the path.
    pub open spec fn subject_of(self) -> String {
        match self {
            HookOutcome::Copied { path } => path,
            HookOutcome::CopySkipped { path, .. } => path,
            HookOutcome::CopyFailed { path, .. } => path,
            HookOutcome::Ran { command } => command,
            HookOutcome::Failed { command, .. } => command,
        }
    }

    /// One line naming what this outcome was about.
    pub fn subject(&self) -> (subject: String)
        ensures
            subject == self.subject_of(),
    {
        match self {
            HookOutcome::Copied { path } => path.clone(),
            HookOutcome::CopySkipped { path, .. } => path.clone(),
            HookOutcome::CopyFailed { path, .. } => path.clone(),
            HookOutcome::Ran { command } => command.clone(),
            HookOutcome::Failed { command, .. } => command.clone(),
        }
    }
}

/// Everything that happened for one space.
#[derive(Debug, PartialEq, Eq)]
pub struct HookReport {
    pub target: HookTarget,
    /// Every outcome, in the order it happened.
    pub outcomes: Vec<HookOutcome>,
}

/// The outcomes that are failures, in order.
pub open spec fn failures_of(outcomes: Seq<HookOutcome>) -> Seq<HookOutcome> {
    outcomes.filter(|o: HookOutcome| o.is_failure())
}

/// What is said after `n` other failures.
pub open spec fn and_more(n: nat) -> Seq<char> {
    if n == 0 {
        Seq::empty()
    } else {
        " (and "@ + decimal_of(n) + " more)"@
    }
}

/// The line for the status bar; success is silent.
pub open spec fn summary_text(report: HookReport) -> Option<Seq<char>> {
    let failures = failures_of(report.outcomes@);
    if failures.len() == 0 {
        None
    } else {
        Some(
            "Hook failed for "@ + report.target.space_name@ + ": "@ + failures[0].subject_of()@
                + and_more((failures.len() - 1) as nat) + " \u{2014} the "@
                + report.target.backend.space_noun()@ + " was created and is intact"@,
        )
    }
}

impl HookReport {
    /// The outcomes worth showing the user, in order.
    pub fn failures(&self) -> (failures: Vec<&HookOutcome>)
        ensures
            failures@.len() == failures_of(self.outcomes@).len(),
            forall|k: int|
                0 <= k < failures@.len() ==> *(#[trigger] failures@[k]) == failures_of(
                    self.outcomes@,
                )[k],
    {
        let ghost keep = |o: HookOutcome| o.is_failure();
        let mut failures: Vec<&HookOutcome> = Vec::new();
        let mut i: usize = 0;
        assert(self.outcomes@.take(0) =~= Seq::<HookOutcome>::empty());
        proof {
            reveal(Seq::filter);
        }
        while i < self.outcomes.len()
            invariant
                i <= self.outcomes@.len(),
                keep == (|o: HookOutcome| o.is_failure()),
                failures@.len() == self.outcomes@.take(i as int).filter(keep).len(),
                forall|k: int|
                    0 <= k < failures@.len() ==> *(#[trigger] failures@[k])
                        == self.outcomes@.take(i as int).filter(keep)[k],
            decreases self.outcomes.len() - i,
        {
            let ghost now = self.outcomes@.take(i + 1);
            assert(now.drop_last() =~= self.outcomes@.take(i as int));
            assert(now.last() == self.outcomes@[i as int]);
            proof {
                reveal(Seq::filter);
            }
            if self.outcomes[i].is_failure() {
                failures.push(&self.outcomes[i]);
            }
            i = i + 1;
        }
        assert(self.outcomes@.take(self.outcomes@.len() as int) =~= self.outcomes@);
        failures
    }

    /// Whether anything went wrong.
    pub fn failed(&self) -> (yes: bool)
        ensures
            yes == (failures_of(self.outcomes@).len() > 0),
    {
        self.failures().len() > 0
    }

    /// One line for the status bar, or `None` when there is nothing to say.
    pub fn summary(&self) -> (line: Option<String>)
        ensures
            opt_text(line) == summary_text(*self),
    {
        let failures = self.failures();
        if failures.len() == 0 {
            return None;
        }
        let mut line = concat("Hook failed for ", self.target.space_name.as_str());
        line.append(": ");
        line.append(failures[0].subject().as_str());
        let others: usize = failures.len() - 1;
        if others > 0 {
            line.append(" (and ");
            line.append(decimal(others as u64).as_str());
            line.append(" more)");
        }
        line.append(" \u{2014} the ");
        line.append(self.target.backend.space_noun());
        line.append(" was created and is intact");
        proof {
            let failed = failures_of(self.outcomes@);
            let head = "Hook failed for "@ + self.target.space_name@ + ": "@
                + failed[0].subject_of()@;
            let n = (failed.len() - 1) as nat;
            if n > 0 {
                assert(head + " (and "@ + decimal_of(n) + " more)"@ =~= head + and_more(n));
            } else {
                assert(head + and_more(n) =~= head);
            }
        }
        Some(line)
    }
}

/// Takes in what a plan came to, with the line to log if anything failed.
pub fn run_and_log(plan: &HookPlan, results: Vec<StepResult>) -> (outcome: (
    HookReport,
    Option<String>,
))
    requires
        results@.len() == plan.copies@.len() + plan.commands@.len(),
    ensures
        outcome.0.target == plan.target,
        opt_text(outcome.1) == summary_text(outcome.0),
        exists|steps: Seq<HookStep>| #[trigger]
            plan.are_steps(steps) && outcome.0.outcomes@.len() == steps.len() && (forall|i: int|
                0 <= i < steps.len() ==> is_outcome(
                    steps[i],
                    results@[i],
                    #[trigger] outcome.0.outcomes@[i],
                )),
{
    let report = plan.run(results);
    let line = report.summary();
    (report, line)
}

// ---------------------------------------------------------------------------
// Laws
// ---------------------------------------------------------------------------

/// Every copy comes before every command, and a path that leaves the repository
/// is never copied.
pub proof fn law_copies_come_first(plan: HookPlan, steps: Seq<HookStep>, i: int, j: int)
    requires
        plan.are_steps(steps),
        0 <= i < steps.len(),
        0 <= j < steps.len(),
        steps[i] is Copy || steps[i] is Refuse,
        steps[j] is Run,
    ensures
        i < j,
        steps[i] is Copy <==> stays_inside(plan.copies@[i]@),
{
    if j < plan.copies@.len() {
        assert(is_copy_step(steps[j], plan.target, plan.copies@[j]));
    }
    if i >= plan.copies@.len() {
        assert(steps[plan.copies@.len() + (i - plan.copies@.len())] is Run);
    }
}

/// The global hooks come first, and a repository's own are added to them rather
/// than replacing them.
pub proof fn law_global_hooks_come_first(config: Config, name: Seq<char>, path: Seq<char>)
    ensures
        ({
            let lists = applicable(config, name, path);
            &&& config.hooks.copy@.len() <= all_copies(lists).len()
            &&& config.hooks.run@.len() <= all_commands(lists).len()
            &&& all_copies(lists).take(config.hooks.copy@.len() as int) == config.hooks.copy@
            &&& all_commands(lists).take(config.hooks.run@.len() as int) == config.hooks.run@
        }),
{
    let lists = applicable(config, name, path);
    lemma_lists_start_with(lists);
}

proof fn lemma_lists_start_with(lists: Seq<Hooks>)
    requires
        lists.len() > 0,
    ensures
        lists[0].copy@.len() <= all_copies(lists).len(),
        lists[0].run@.len() <= all_commands(lists).len(),
        all_copies(lists).take(lists[0].copy@.len() as int) == lists[0].copy@,
        all_commands(lists).take(lists[0].run@.len() as int) == lists[0].run@,
    decreases lists.len(),
{
    let init = lists.drop_last();
    if lists.len() == 1 {
        assert(init =~= Seq::<Hooks>::empty());
        assert(all_copies(init) =~= Seq::<String>::empty());
        assert(all_commands(init) =~= Seq::<String>::empty());
        assert(all_copies(lists) =~= lists[0].copy@);
        assert(all_commands(lists) =~= lists[0].run@);
        assert(lists[0].copy@.take(lists[0].copy@.len() as int) =~= lists[0].copy@);
        assert(lists[0].run@.take(lists[0].run@.len() as int) =~= lists[0].run@);
    } else {
        lemma_lists_start_with(init);
        assert(all_copies(lists).take(lists[0].copy@.len() as int) =~= all_copies(init).take(
            lists[0].copy@.len() as int,
        ));
        assert(all_commands(lists).take(lists[0].run@.len() as int) =~= all_commands(init).take(
            lists[0].run@.len() as int,
        ));
    }
}

/// A repository with hooks of its own is counted once, however its settings are
/// laid out.
pub proof fn law_every_repository_is_counted_once(config: Config)
    requires
        config.wf(),
    ensures
        hooked_keys(config.repos@).finite(),
        repos_with_hooks(config.repos@) == hooked_keys(config.repos@).len(),
{
    lemma_hooked_keys(config.repos@);
}

/// Every entry of the configuration is found under its key.
pub proof fn law_every_entry_is_found(config: Config, i: int)
    requires
        config.wf(),
        0 <= i < config.repos@.len(),
    ensures
        entry_of(config.repos@, config.repos@[i].key@) == Some(i),
        keyed(config, config.repos@[i].key@) == seq![config.repos@[i].config.hooks],
{
    let key = config.repos@[i].key@;
    lemma_entry_of(config.repos@, key);
    let at = entry_of(config.repos@, key);
    assert(at is Some);
    if at->0 < i {
        assert(config.repos@[at->0].key@ != config.repos@[i].key@);
    } else if i < at->0 {
        assert(config.repos@[i].key@ != key);
    }
}

/// Without configuration nothing runs, in any repository.
pub proof fn law_nothing_without_configuration(config: Config, name: Seq<char>, path: Seq<char>)
    requires
        config.is_default(),
    ensures
        all_copies(applicable(config, name, path)).len() == 0,
        all_commands(applicable(config, name, path)).len() == 0,
{
    lemma_entry_of(config.repos@, name);
    lemma_entry_of(config.repos@, path);
    let lists = applicable(config, name, path);
    assert(lists =~= seq![config.hooks]);
    assert(lists.drop_last() =~= Seq::<Hooks>::empty());
    reveal_with_fuel(all_copies, 2);
    reveal_with_fuel(all_commands, 2);
}

/// A repository's hooks run for that repository alone: an entry under a key that
/// is neither its name nor its path changes nothing.
pub proof fn law_other_repositories_hooks_do_not_run(
    config: Config,
    name: Seq<char>,
    path: Seq<char>,
)
    requires
        forall|i: int|
            0 <= i < config.repos@.len() ==> (#[trigger] config.repos@[i]).key@ != name
                && config.repos@[i].key@ != path,
    ensures
        all_copies(applicable(config, name, path)) == config.hooks.copy@,
        all_commands(applicable(config, name, path)) == config.hooks.run@,
{
    lemma_entry_of(config.repos@, name);
    lemma_entry_of(config.repos@, path);
    let lists = applicable(config, name, path);
    assert(lists =~= seq![config.hooks]);
    lemma_lists_start_with(lists);
    assert(lists.drop_last() =~= Seq::<Hooks>::empty());
    reveal_with_fuel(all_copies, 2);
    reveal_with_fuel(all_commands, 2);
    assert(all_copies(lists) =~= config.hooks.copy@);
    assert(all_commands(lists) =~= config.hooks.run@);
}

/// Everything that is configured for a space is in its plan, in order: the global
/// list, then the one under the repository's name, then the one under its path.
/// Nothing else is, and where hooks are off nothing is at all.
pub proof fn law_a_plan_holds_every_list_that_applies(
    settings: HookSettings,
    target: HookTarget,
    plan: HookPlan,
    by_name: Option<int>,
    by_path: Option<int>,
)
    requires
        settings.wf(),
        settings.planned(target, plan),
        match by_name {
            Some(i) => 0 <= i < settings.config.repos@.len() && settings.config.repos@[i].key@
                == target.repo_name@,
            None => forall|i: int|
                0 <= i < settings.config.repos@.len() ==> (
                #[trigger] settings.config.repos@[i]).key@ != target.repo_name@,
        },
        match by_path {
            Some(i) => 0 <= i < settings.config.repos@.len() && settings.config.repos@[i].key@
                == target.repo_path@,
            None => forall|i: int|
                0 <= i < settings.config.repos@.len() ==> (
                #[trigger] settings.config.repos@[i]).key@ != target.repo_path@,
        },
    ensures
        plan.target == target,
        settings.enabled ==> plan.copies@ == settings.config.hooks.copy@ + (match by_name {
            Some(i) => settings.config.repos@[i].config.hooks.copy@,
            None => Seq::empty(),
        }) + (match by_path {
            Some(i) => settings.config.repos@[i].config.hooks.copy@,
            None => Seq::empty(),
        }),
        settings.enabled ==> plan.commands@ == settings.config.hooks.run@ + (match by_name {
            Some(i) => settings.config.repos@[i].config.hooks.run@,
            None => Seq::empty(),
        }) + (match by_path {
            Some(i) => settings.config.repos@[i].config.hooks.run@,
            None => Seq::empty(),
        }),
        !settings.enabled ==> plan.copies@.len() == 0 && plan.commands@.len() == 0,
{
    let config = settings.config;
    lemma_keyed(config, target.repo_name@, by_name);
    lemma_keyed(config, target.repo_path@, by_path);
    let lists = applicable(config, target.repo_name@, target.repo_path@);
    let a = seq![config.hooks];
    let b = keyed(config, target.repo_name@);
    let c = keyed(config, target.repo_path@);
    lemma_lists_flatten(a + b, c);
    lemma_lists_flatten(a, b);
    lemma_lists_flatten(Seq::empty(), a);
    assert(Seq::<Hooks>::empty() + a =~= a);
    assert(all_copies(a) =~= config.hooks.copy@) by {
        assert(a.drop_last() =~= Seq::<Hooks>::empty());
    }
    assert(all_commands(a) =~= config.hooks.run@) by {
        assert(a.drop_last() =~= Seq::<Hooks>::empty());
    }
    lemma_one_list(b);
    lemma_one_list(c);
    if settings.enabled {
        assert(plan.copies@ =~= settings.config.hooks.copy@ + (match by_name {
            Some(i) => settings.config.repos@[i].config.hooks.copy@,
            None => Seq::empty(),
        }) + (match by_path {
            Some(i) => settings.config.repos@[i].config.hooks.copy@,
            None => Seq::empty(),
        }));
        assert(plan.commands@ =~= settings.config.hooks.run@ + (match by_name {
            Some(i) => settings.config.repos@[i].config.hooks.run@,
            None => Seq::empty(),
        }) + (match by_path {
            Some(i) => settings.config.repos@[i].config.hooks.run@,
            None => Seq::empty(),
        }));
    }
}

proof fn lemma_keyed(config: Config, key: Seq<char>, at: Option<int>)
    requires
        config.wf(),
        match at {
            Some(i) => 0 <= i < config.repos@.len() && config.repos@[i].key@ == key,
            None => forall|i: int|
                0 <= i < config.repos@.len() ==> (#[trigger] config.repos@[i]).key@ != key,
        },
    ensures
        keyed(config, key) == (match at {
            Some(i) => seq![config.repos@[i].config.hooks],
            None => Seq::empty(),
        }),
{
    match at {
        Some(i) => law_every_entry_is_found(config, i),
        None => lemma_entry_of(config.repos@, key),
    }
}

proof fn lemma_one_list(lists: Seq<Hooks>)
    requires
        lists.len() <= 1,
    ensures
        lists.len() == 1 ==> all_copies(lists) == lists[0].copy@,
        lists.len() == 1 ==> all_commands(lists) == lists[0].run@,
        lists.len() == 0 ==> all_copies(lists) == Seq::<String>::empty(),
        lists.len() == 0 ==> all_commands(lists) == Seq::<String>::empty(),
{
    reveal_with_fuel(all_copies, 2);
    reveal_with_fuel(all_commands, 2);
    if lists.len() == 1 {
        assert(lists.drop_last() =~= Seq::<Hooks>::empty());
        assert(all_copies(lists) =~= lists[0].copy@);
        assert(all_commands(lists) =~= lists[0].run@);
    }
}

proof fn lemma_lists_flatten(a: Seq<Hooks>, b: Seq<Hooks>)
    ensures
        all_copies(a + b) == all_copies(a) + all_copies(b),
        all_commands(a + b) == all_commands(a) + all_commands(b),
    decreases b.len(),
{
    if b.len() == 0 {
        assert(a + b =~= a);
        assert(all_copies(a) + all_copies(b) =~= all_copies(a));
        assert(all_commands(a) + all_commands(b) =~= all_commands(a));
    } else {
        assert((a + b).drop_last() =~= a + b.drop_last());
        lemma_lists_flatten(a, b.drop_last());
        assert(all_copies(a + b) =~= all_copies(a) + all_copies(b));
        assert(all_commands(a + b) =~= all_commands(a) + all_commands(b));
    }
}

/// Hooks run unless this invocation asked for them to be skipped, and any value
/// but an empty one asks.
pub proof fn law_any_value_skips(value: Option<String>)
    ensures
        skip_requested(value) <==> value is Some && value->0@.len() > 0,
{
}

/// A file is carried over from its place in the repository to the same place in
/// the space, and only where its path names a place inside them; every command is
/// handed to a shell as it was written.
pub proof fn law_a_step_is_what_was_configured(plan: HookPlan, steps: Seq<HookStep>, i: int)
    requires
        plan.are_steps(steps),
        0 <= i < steps.len(),
    ensures
        steps.len() == plan.copies@.len() + plan.commands@.len(),
        i < plan.copies@.len() ==> match steps[i] {
            HookStep::Copy { path, from, to } => {
                &&& path == plan.copies@[i]
                &&& from@ == path_in(plan.target.repo_path@, path@)
                &&& to@ == path_in(plan.target.space_path@, path@)
                &&& !(path@.len() > 0 && path@[0] == '/')
                &&& !parts_of(path@, '/').contains(".."@)
            },
            HookStep::Refuse { path } => path == plan.copies@[i] && (path@.len() > 0 && path@[0]
                == '/' || parts_of(path@, '/').contains(".."@)),
            HookStep::Run { .. } => false,
        },
        i >= plan.copies@.len() ==> steps[i] == (HookStep::Run {
            command: plan.commands@[i - plan.copies@.len()],
        }),
{
    reveal_strlit("/");
    if i < plan.copies@.len() {
        let path = plan.copies@[i]@;
        assert(is_copy_step(steps[i], plan.target, plan.copies@[i]));
        if path.len() > 0 {
            assert(path.subrange(0, 1) =~= seq![path[0]]);
            assert("/"@ =~= seq!['/']);
            if path[0] == '/' {
                assert(has_prefix(path, "/"@));
            } else if has_prefix(path, "/"@) {
                assert(path.subrange(0, 1)[0] == '/');
            }
        }
    } else {
        assert(steps[plan.copies@.len() + (i - plan.copies@.len())] is Run);
    }
}

/// What is told of a step is what became of it: a copy is a failure exactly where
/// it could not be made, one without a source is not, and a command is one exactly
/// where it did not end well.
pub proof fn law_a_failure_is_told_as_one(step: HookStep, result: StepResult, outcome: HookOutcome)
    requires
        is_outcome(step, result, outcome),
    ensures
        step is Refuse ==> outcome is CopyFailed,
        step is Copy ==> (outcome is CopySkipped <==> result is SourceMissing),
        step is Copy ==> (outcome is CopyFailed <==> result is SourceIsDirectory || result
            is CopyFailed),
        step is Copy ==> (outcome is Copied <==> !(result is SourceMissing) && !(result
            is SourceIsDirectory) && !(result is CopyFailed)),
        step is Run ==> (outcome is Failed <==> result is Exited || result is Signalled || result
            is NotStarted),
        step is Run ==> (outcome is Ran <==> !(outcome is Failed)),
        outcome.is_failure() <==> outcome is CopyFailed || outcome is Failed,
        step matches HookStep::Run { command } ==> outcome.subject_of() == command,
        step matches HookStep::Copy { path, .. } ==> outcome.subject_of() == path,
        step matches HookStep::Refuse { path } ==> outcome.subject_of() == path,
        outcome matches HookOutcome::Failed { output, .. } ==> (result matches StepResult::Exited {
            stdout,
            stderr,
            ..
        } ==> ((stdout@ + stderr@).len() <= 8192 ==> output@ == lossy_text(stdout@ + stderr@))),
{
}

/// The status bar is told of a failure exactly where there is one, and of the
/// first one first.
pub proof fn law_success_is_silent(report: HookReport)
    ensures
        summary_text(report) is None <==> forall|i: int|
            0 <= i < report.outcomes@.len() ==> !(#[trigger] report.outcomes@[i]).is_failure(),
        summary_text(report) matches Some(line) ==> exists|i: int|
            0 <= i < report.outcomes@.len() && (#[trigger] report.outcomes@[i]).is_failure() && (
            forall|j: int|
                0 <= j < i ==> !(#[trigger] report.outcomes@[j]).is_failure()) && has_prefix(
                line,
                "Hook failed for "@ + report.target.space_name@ + ": "@
                    + report.outcomes@[i].subject_of()@,
            ),
{
    lemma_first_failure(report.outcomes@);
    if let Some(line) = summary_text(report) {
        let i = choose|i: int|
            0 <= i < report.outcomes@.len() && (#[trigger] report.outcomes@[i]).is_failure() && (
            forall|j: int| 0 <= j < i ==> !(#[trigger] report.outcomes@[j]).is_failure())
                && failures_of(report.outcomes@)[0] == report.outcomes@[i];
        let head = "Hook failed for "@ + report.target.space_name@ + ": "@
            + report.outcomes@[i].subject_of()@;
        assert(line.subrange(0, head.len() as int) =~= head);
        assert(has_prefix(line, head));
    }
}

proof fn lemma_first_failure(outcomes: Seq<HookOutcome>)
    ensures
        failures_of(outcomes).len() == 0 <==> forall|i: int|
            0 <= i < outcomes.len() ==> !(#[trigger] outcomes[i]).is_failure(),
        failures_of(outcomes).len() > 0 ==> exists|i: int|
            0 <= i < outcomes.len() && (#[trigger] outcomes[i]).is_failure() && (forall|j: int|
                0 <= j < i ==> !(#[trigger] outcomes[j]).is_failure()) && failures_of(outcomes)[0]
                == outcomes[i],
    decreases outcomes.len(),
{
    reveal(Seq::filter);
    if outcomes.len() > 0 {
        let rest = outcomes.drop_last();
        lemma_first_failure(rest);
        assert forall|i: int| 0 <= i < rest.len() implies rest[i] == outcomes[i] by {
        }
        if failures_of(rest).len() == 0 {
            assert forall|j: int| 0 <= j < outcomes.len() - 1 implies !(
            #[trigger] outcomes[j]).is_failure() by {
                assert(!rest[j].is_failure());
            }
            assert(outcomes[outcomes.len() - 1] == outcomes.last());
            if outcomes.last().is_failure() {
                assert(failures_of(outcomes)[0] == outcomes[outcomes.len() - 1]);
            }
        } else {
            let i = choose|i: int|
                0 <= i < rest.len() && (#[trigger] rest[i]).is_failure() && (forall|j: int|
                    0 <= j < i ==> !(#[trigger] rest[j]).is_failure()) && failures_of(rest)[0]
                    == rest[i];
            assert(outcomes[i].is_failure());
            assert forall|j: int| 0 <= j < i implies !(#[trigger] outcomes[j]).is_failure() by {
                assert(!rest[j].is_failure());
            }
            assert(failures_of(outcomes)[0] == outcomes[i]);
        }
    }
}

/// A command that failed is reported with what it was, how it ended, and the last of
/// what it wrote, first to its output and then to its errors.
pub proof fn law_a_failed_command_is_reported_in_full(
    command: String,
    result: StepResult,
    outcome: HookOutcome,
)
    requires
        is_outcome(HookStep::Run { command }, result, outcome),
    ensures
        result matches StepResult::Exited { code, stdout, stderr } ==> (
        outcome matches HookOutcome::Failed { command: c, status, output } && c == command
            && status@ == "exit status "@ + signed_decimal_of(code as int) && output@ == tail_text(
            stdout@ + stderr@,
        )),
        result matches StepResult::Signalled { status: by, stdout, stderr } ==> (
        outcome matches HookOutcome::Failed { command: c, status, output } && c == command
            && status@ == "terminated by a signal ("@ + by@ + ")"@ && output@ == tail_text(
            stdout@ + stderr@,
        )),
        result matches StepResult::NotStarted { error } ==> (
        outcome matches HookOutcome::Failed { command: c, status, output } && c == command
            && status@ == "could not start"@ && output == error),
        outcome matches HookOutcome::Ran { command: c } ==> c == command,
{
}

/// Of a long output the last eight kilobytes are kept, and it is said that there was
/// more; a short one is kept whole.
pub proof fn law_the_end_of_an_output_is_kept(bytes: Seq<u8>)
    ensures
        bytes.len() <= 8 * 1024 ==> tail_text(bytes) == lossy_text(bytes),
        bytes.len() > 8 * 1024 ==> tail_text(bytes) == "\u{2026} (truncated)\n"@ + lossy_text(
            bytes.skip(bytes.len() - 8 * 1024),
        ),
{
}

/// Why a copy was not made is told, whichever reason it was.
pub proof fn law_a_copy_that_was_not_made_says_why(
    step: HookStep,
    result: StepResult,
    outcome: HookOutcome,
)
    requires
        is_outcome(step, result, outcome),
    ensures
        step is Refuse ==> (outcome matches HookOutcome::CopyFailed { error, .. } && error@
            == "must be a relative path inside the repository"@),
        step is Copy && result is SourceMissing ==> (outcome matches HookOutcome::CopySkipped {
            reason,
            ..
        } && reason@ == "not present in the repository"@),
        step is Copy && result is SourceIsDirectory ==> (outcome matches HookOutcome::CopyFailed {
            error,
            ..
        } && error@ == "is a directory; copy hooks carry files only"@),
        step is Copy ==> (result matches StepResult::CopyFailed { error: cause } ==> (
        outcome matches HookOutcome::CopyFailed { error, .. } && error == cause)),
{
}

/// Every command is told which space it runs for, by path and by name, of which
/// repository, and by which backend.
pub proof fn law_a_command_is_told_of_its_space(target: HookTarget)
    ensures
        target.env_of().len() == 5,
        target.env_of().contains(("SHANTI_SPACE_PATH"@, target.space_path@)),
        target.env_of().contains(("SHANTI_SPACE_NAME"@, target.space_name@)),
        target.env_of().contains(("SHANTI_REPO_PATH"@, target.repo_path@)),
        target.env_of().contains(("SHANTI_REPO_NAME"@, target.repo_name@)),
        target.backend == Backend::Git ==> target.env_of().contains(("SHANTI_BACKEND"@, "git"@)),
        target.backend == Backend::Jj ==> target.env_of().contains(("SHANTI_BACKEND"@, "jj"@)),
{
    let env = target.env_of();
    assert(env[0].1 == target.space_path@);
    assert(env[1].1 == target.space_name@);
    assert(env[2].1 == target.repo_path@);
    assert(env[3].1 == target.repo_name@);
    assert(env[4].0 == "SHANTI_BACKEND"@);
}

/// The failures of a report are those of its outcomes that failed, in order.
pub proof fn law_every_failure_is_counted(outcomes: Seq<HookOutcome>, last: HookOutcome)
    ensures
        failures_of(Seq::<HookOutcome>::empty()).len() == 0,
        last is CopyFailed || last is Failed ==> failures_of(outcomes.push(last)) == failures_of(
            outcomes,
        ).push(last),
        !(last is CopyFailed || last is Failed) ==> failures_of(outcomes.push(last)) == failures_of(
            outcomes,
        ),
{
    reveal(Seq::filter);
    assert(outcomes.push(last).drop_last() =~= outcomes);
}

/// The line of the status bar names the space and the first failure, counts the
/// others, and says that the space itself is there.
pub proof fn law_a_failed_hook_leaves_its_space_intact(report: HookReport)
    ensures
        ({
            let failures = failures_of(report.outcomes@);
            let noun = if report.target.backend == Backend::Jj {
                "workspace"@
            } else {
                "worktree"@
            };
            let head = "Hook failed for "@ + report.target.space_name@ + ": "@;
            let tail = " \u{2014} the "@ + noun + " was created and is intact"@;
            &&& failures.len() == 1 ==> summary_text(report) == Some(
                head + failures[0].subject_of()@ + tail,
            )
            &&& failures.len() > 1 ==> summary_text(report) == Some(
                head + failures[0].subject_of()@ + (" (and "@ + decimal_of(
                    (failures.len() - 1) as nat,
                ) + " more)"@) + tail,
            )
        }),
{
    let failures = failures_of(report.outcomes@);
    if failures.len() > 0 {
        let noun = report.target.backend.space_noun()@;
        let head = "Hook failed for "@ + report.target.space_name@ + ": "@;
        let about = head + failures[0].subject_of()@;
        let more = and_more((failures.len() - 1) as nat);
        let tail = " \u{2014} the "@ + noun + " was created and is intact"@;
        assert(summary_text(report)->0 =~= about + more + tail);
        if failures.len() == 1 {
            assert(about + more =~= about);
        }
    }
}

} // verus!
