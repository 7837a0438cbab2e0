//! The pull request flow: a URL in, a space for that pull request out.
//!
//! Two of its steps are slow, so the flow is cut in half at each: the half
//! before hands the job over and leaves the prompt waiting, and everything the
//! half after needs travels with the job.

use vstd::prelude::*;

use crate::components::create_worktree::note_view;
use crate::components::filter::{erased, typed};
use crate::components::help::{footer_entries, footer_of, HelpEntry, KEYS_SECTION};
use crate::components::modal::{is_countable, popup_area, popup_in, Extent};
use crate::components::prompt::{prompt_width, Prompt, PromptView, PROMPT_HEIGHT};
use crate::components::worktrees::status::spinner;
use crate::components::{Action, EventState};
use crate::github::{opt_text, parse_pr_url, parsed, url_error_text, PrInfo, PrUrl, PrUrlError};
use crate::keymap::InputMode;
use crate::screen::Rect;
use crate::text::{char_count, concat, decimal, decimal_of, insert_char, remove_char};
use crate::theme::{self, Style, Theme};

verus! {

/// Said wherever a space is created from a merged pull request.
pub const MERGED_BRANCH_WARNING: &'static str = "PR is merged, branch may be deleted on remote";

/// The parts of a flow that outlive each of its steps.
#[derive(Debug, PartialEq, Eq)]
pub struct Flow {
    /// Whether to clone and create without asking.
    pub auto: bool,
    /// What the user typed.
    pub typed: String,
}

impl Clone for Flow {
    fn clone(&self) -> (copy: Self)
        ensures
            copy == *self,
    {
        Flow { auto: self.auto, typed: self.typed.clone() }
    }
}

/// Which slow step a flow waits on, and what its answer is about.
#[derive(Debug, PartialEq, Eq)]
pub enum Stage {
    Lookup { url: PrUrl },
    Clone { url: PrUrl, info: PrInfo },
}

/// A suspended flow: what is out, and everything needed to carry on.
#[derive(Debug, PartialEq, Eq)]
pub struct PrStep {
    pub stage: Stage,
    pub flow: Flow,
}

/// What the prompt is waiting for.
#[derive(Debug, PartialEq, Eq)]
pub struct Waiting {
    /// Said in the status row.
    pub message: String,
    /// Which picture of the spinner is next.
    pub frame: usize,
}

/// What the prompt made of a key.
#[derive(Debug, PartialEq, Eq)]
pub enum Asked {
    Consumed,
    Ignored,
    Close,
    /// Close, and give up on the job that is out.
    Abandon,
    /// Look this pull request up.
    Lookup { url: PrUrl, flow: Flow },
}

/// The prompt for a pull request.
#[derive(Debug, PartialEq, Eq)]
pub struct PrWorktreeComponent {
    pub character_index: usize,
    pub input: String,
    pub error: Option<String>,
    pub auto_clone: bool,
    /// Set while a job is out: the field is frozen and a spinner turns.
    pub waiting: Option<Waiting>,
}

/// What is said while a pull request is looked up.
pub open spec fn lookup_message(url: PrUrl) -> Seq<char> {
    "Looking up "@ + url.owner@ + "/"@ + url.repo@ + " #"@ + decimal_of(url.number as nat)
}

/// What is said while a repository is cloned.
pub open spec fn clone_message(url: PrUrl, dir: Seq<char>) -> Seq<char> {
    "Cloning "@ + url.owner@ + "/"@ + url.repo@ + " into "@ + dir
}

/// What is said while `url` is cloned into `dir`.
pub fn clone_text(url: &PrUrl, dir: &str) -> (text: String)
    ensures
        text@ == clone_message(*url, dir@),
{
    let mut text = concat("Cloning ", url.owner.as_str());
    text.append("/");
    text.append(url.repo.as_str());
    text.append(" into ");
    text.append(dir);
    text
}

/// The line shown after a clone nobody was asked about.
pub open spec fn clone_notice(url: PrUrl, auto: bool, dirs: nat) -> Option<Seq<char>> {
    if auto && dirs == 1 {
        Some(
            "Cloned "@ + url.repo@
                + " with git \u{2014} run `jj git init --colocate` in it for jj"@,
        )
    } else {
        None
    }
}

/// The line shown after a clone lands, if the user was not told before that it
/// is git's: only where neither the question nor the picker was shown.
pub fn git_clone_notice(url: &PrUrl, auto: bool, repos_dirs: &Vec<String>) -> (notice: Option<
    String,
>)
    ensures
        opt_text(notice) == clone_notice(*url, auto, repos_dirs@.len()),
{
    if auto && repos_dirs.len() == 1 {
        let mut text = concat("Cloned ", url.repo.as_str());
        text.append(" with git \u{2014} run `jj git init --colocate` in it for jj");
        Some(text)
    } else {
        None
    }
}

impl PrWorktreeComponent {
    /// The caret stands in the text or behind it.
    pub open spec fn wf(self) -> bool {
        self.character_index <= self.input@.len()
    }

    /// The text and the characters before the caret.
    pub open spec fn line(self) -> (Seq<char>, nat) {
        (self.input@, self.character_index as nat)
    }

    /// An empty prompt. `auto_clone` skips every later question.
    pub fn new(auto_clone: bool) -> (prompt: PrWorktreeComponent)
        ensures
            prompt.wf(),
            prompt.line() == (Seq::<char>::empty(), 0nat),
            prompt.error is None,
            prompt.auto_clone == auto_clone,
            prompt.waiting is None,
    {
        PrWorktreeComponent {
            character_index: 0,
            input: String::new(),
            error: None,
            auto_clone,
            waiting: None,
        }
    }

    /// Whether this is the prompt a flow was started from, with the caret behind
    /// the text.
    pub open spec fn is_of(self, flow: Flow) -> bool {
        &&& self.wf()
        &&& self.input == flow.typed
        &&& self.character_index == flow.typed@.len()
        &&& self.auto_clone == flow.auto
    }

    fn from_flow(flow: Flow) -> (prompt: PrWorktreeComponent)
        ensures
            prompt.is_of(flow),
            prompt.error is None,
            prompt.waiting is None,
    {
        let character_index: usize = char_count(flow.typed.as_str());
        PrWorktreeComponent {
            character_index,
            input: flow.typed,
            error: None,
            auto_clone: flow.auto,
            waiting: None,
        }
    }

    /// The prompt as it was when a lookup was started, and why that failed.
    pub fn reopened(flow: Flow, error: String) -> (prompt: PrWorktreeComponent)
        ensures
            prompt.is_of(flow),
            prompt.error == Some(error),
            prompt.waiting is None,
    {
        let mut prompt = Self::from_flow(flow);
        prompt.error = Some(error);
        prompt
    }

    /// A prompt that only waits.
    pub fn waiting(flow: Flow, message: String) -> (prompt: PrWorktreeComponent)
        ensures
            prompt.is_of(flow),
            prompt.error is None,
            prompt.waiting == Some(Waiting { message, frame: 0 }),
    {
        let mut prompt = Self::from_flow(flow);
        prompt.waiting = Some(Waiting { message, frame: 0 });
        prompt
    }

    /// What of this prompt outlives it.
    pub open spec fn spec_flow(self) -> Flow {
        Flow { auto: self.auto_clone, typed: self.input }
    }

    fn flow(&self) -> (flow: Flow)
        ensures
            flow == self.spec_flow(),
    {
        Flow { auto: self.auto_clone, typed: self.input.clone() }
    }

    /// Says why the text was not taken.
    pub fn set_error(&mut self, msg: String)
        ensures
            *final(self) == (PrWorktreeComponent { error: Some(msg), ..*old(self) }),
    {
        self.error = Some(msg);
    }

    /// Where the popup sits inside the frame.
    pub fn area(&self, full: Rect) -> (area: Rect)
        requires
            is_countable(full),
        ensures
            area == popup_in(full, prompt_width(70, 38, 110), Extent::fixed(PROMPT_HEIGHT)),
    {
        popup_area(full, prompt_width(70, 38, 110), Extent::fixed(PROMPT_HEIGHT))
    }

    /// What stands beneath the text: what is going on, or why the last try
    /// failed, or what a URL looks like.
    pub open spec fn status(self, theme: Theme) -> (Seq<char>, Style) {
        match (self.waiting, self.error) {
            (Some(waiting), _) => (
                spinner(waiting.frame)@ + " "@ + waiting.message@ + "\u{2026}"@,
                theme::secondary(&theme),
            ),
            (None, Some(error)) => (error@, theme::danger_text(&theme)),
            (None, None) => ("github.com/owner/repo/pull/123"@, theme::muted(&theme)),
        }
    }

    /// The prompt that is drawn.
    pub open spec fn is_prompt(self, prompt: Prompt, theme: Theme) -> bool {
        &&& prompt.title@ == "Worktree from PR"@
        &&& opt_text(prompt.context) == (if self.auto_clone {
            Some("auto-clone"@)
        } else {
            None
        })
        &&& prompt.label@ == "GitHub PR URL"@
        &&& prompt.aside is None
        &&& prompt.value == self.input
        &&& prompt.placeholder@ == "paste a PR URL\u{2026}"@
        &&& prompt.cursor == self.character_index
        &&& prompt.valid == (self.error is None)
        &&& note_view(prompt.status) == Some(self.status(theme))
        &&& prompt.footer@ == footer_of(self.keys(), KEYS_SECTION@, theme)
    }

    /// The prompt that is drawn.
    pub fn prompt(&self, theme: &Theme) -> (prompt: Prompt)
        ensures
            self.is_prompt(prompt, *theme),
    {
        let status = match (&self.waiting, &self.error) {
            (Some(waiting), _) => {
                let mut text = concat(spinner(waiting.frame), " ");
                text.append(waiting.message.as_str());
                text.append("\u{2026}");
                (text, theme::secondary(theme))
            },
            (None, Some(error)) => (error.clone(), theme::danger_text(theme)),
            (None, None) => ("github.com/owner/repo/pull/123".to_owned(), theme::muted(theme)),
        };
        let bindings = self.help();
        Prompt {
            title: "Worktree from PR".to_owned(),
            context: if self.auto_clone {
                Some("auto-clone".to_owned())
            } else {
                None
            },
            label: "GitHub PR URL".to_owned(),
            aside: None,
            value: self.input.clone(),
            placeholder: "paste a PR URL\u{2026}".to_owned(),
            cursor: self.character_index,
            valid: self.error.is_none(),
            status: Some(status),
            footer: footer_entries(&bindings, KEYS_SECTION, theme),
        }
    }

    /// The prompt after it was drawn once more: a waiting one turns its spinner.
    pub open spec fn turned(self) -> PrWorktreeComponent {
        match self.waiting {
            Some(waiting) => PrWorktreeComponent {
                waiting: Some(
                    Waiting {
                        frame: if waiting.frame == usize::MAX {
                            0
                        } else {
                            (waiting.frame + 1) as usize
                        },
                        ..waiting
                    },
                ),
                ..self
            },
            None => self,
        }
    }

    /// The prompt as it is drawn into `area`. A waiting one turns its spinner.
    pub fn draw(&mut self, area: Rect, theme: &Theme) -> (view: Option<PromptView>)
        requires
            is_countable(area),
        ensures
            exists|prompt: Prompt|
                #[trigger] old(self).is_prompt(prompt, *theme) && prompt.is_drawn(
                    area,
                    *theme,
                    view,
                ),
            *final(self) == old(self).turned(),
    {
        let prompt = self.prompt(theme);
        let view = prompt.render(area, theme);
        if let Some(waiting) = &self.waiting {
            let frame: usize = if waiting.frame == usize::MAX {
                0
            } else {
                waiting.frame + 1
            };
            self.waiting = Some(Waiting { message: waiting.message.clone(), frame });
        }
        view
    }

    /// The prompt after a key: its text changes only while nothing is out, and a
    /// change takes the last failure away.
    pub open spec fn is_after(self, action: Action, next: PrWorktreeComponent) -> bool {
        match action {
            Action::InsertChar(c) => if self.waiting is Some {
                next == self
            } else {
                next.line() == typed(self.input@, self.character_index as nat, c) && next == (
                PrWorktreeComponent {
                    character_index: next.character_index,
                    input: next.input,
                    error: None,
                    ..self
                })
            },
            Action::DeleteChar => if self.waiting is Some || self.character_index == 0 {
                next == self
            } else {
                next.line() == erased(self.input@, self.character_index as nat) && next == (
                PrWorktreeComponent {
                    character_index: next.character_index,
                    input: next.input,
                    error: None,
                    ..self
                })
            },
            _ => next == self,
        }
    }

    /// Types into the text.
    pub fn handle_action(&mut self, action: Action) -> (state: EventState)
        requires
            old(self).wf(),
        ensures
            final(self).wf(),
            state == (match action {
                Action::InsertChar(_) | Action::DeleteChar => EventState::Consumed,
                _ => EventState::NotConsumed,
            }),
            old(self).is_after(action, *final(self)),
    {
        match action {
            Action::InsertChar(c) => {
                if self.waiting.is_none() {
                    self.enter_char(c);
                }
                EventState::Consumed
            },
            Action::DeleteChar => {
                if self.waiting.is_none() {
                    self.delete_char();
                }
                EventState::Consumed
            },
            _ => EventState::NotConsumed,
        }
    }

    fn enter_char(&mut self, c: char)
        requires
            old(self).wf(),
            old(self).waiting is None,
        ensures
            final(self).wf(),
            old(self).is_after(Action::InsertChar(c), *final(self)),
    {
        self.input = insert_char(self.input.as_str(), self.character_index, c);
        let n: usize = char_count(self.input.as_str());
        assert(self.character_index < n);
        self.character_index = self.character_index + 1;
        self.error = None;
    }

    fn delete_char(&mut self)
        requires
            old(self).wf(),
            old(self).waiting is None,
        ensures
            final(self).wf(),
            old(self).is_after(Action::DeleteChar, *final(self)),
    {
        if self.character_index != 0 {
            self.input = remove_char(self.input.as_str(), self.character_index - 1);
            self.character_index = self.character_index - 1;
            self.error = None;
        }
    }

    /// What Enter comes to: nothing while a lookup is out, the reason where the
    /// text names no pull request, else a lookup.
    pub open spec fn submitted(self, asked: Asked, next: PrWorktreeComponent) -> bool {
        if self.waiting is Some {
            asked is Consumed && next == self
        } else {
            match parsed(self.input@) {
                Ok((owner, repo, number)) => {
                    &&& asked matches Asked::Lookup { url, flow }
                    &&& url.owner@ == owner
                    &&& url.repo@ == repo
                    &&& url.number == number
                    &&& flow == self.spec_flow()
                    &&& next.waiting matches Some(waiting)
                    &&& waiting.frame == 0
                    &&& waiting.message@ == lookup_message(url)
                    &&& next == (PrWorktreeComponent {
                        error: None,
                        waiting: next.waiting,
                        ..self
                    })
                },
                Err(error) => {
                    &&& asked is Consumed
                    &&& opt_text(next.error) == Some(url_error_text(error))
                    &&& next == (PrWorktreeComponent { error: next.error, ..self })
                },
            }
        }
    }

    fn submit(&mut self) -> (asked: Asked)
        ensures
            old(self).submitted(asked, *final(self)),
    {
        if self.waiting.is_some() {
            return Asked::Consumed;
        }
        let url = match parse_pr_url(self.input.as_str()) {
            Ok(url) => url,
            Err(error) => {
                self.set_error(error.message());
                return Asked::Consumed;
            },
        };
        let mut message = concat("Looking up ", url.owner.as_str());
        message.append("/");
        message.append(url.repo.as_str());
        message.append(" #");
        message.append(decimal(url.number).as_str());
        let flow = self.flow();
        self.error = None;
        self.waiting = Some(Waiting { message, frame: 0 });
        Asked::Lookup { url, flow }
    }

    /// What a key comes to.
    pub open spec fn answer(self, action: Action, asked: Asked, next: PrWorktreeComponent) -> bool {
        match action {
            Action::Select => self.submitted(asked, next),
            Action::ClosePopup | Action::ExitInsertMode => next == self && (if self.waiting is Some {
                asked is Abandon
            } else {
                asked is Close
            }),
            Action::InsertChar(_) | Action::DeleteChar => asked is Consumed && self.is_after(
                action,
                next,
            ),
            _ => asked is Ignored && next == self,
        }
    }

    /// Acts on a key. Leaving a wait is what gives the job up.
    pub fn handle(&mut self, action: Action) -> (asked: Asked)
        requires
            old(self).wf(),
        ensures
            final(self).wf(),
            old(self).answer(action, asked, *final(self)),
    {
        match action {
            Action::Select => self.submit(),
            Action::ClosePopup | Action::ExitInsertMode => if self.waiting.is_some() {
                Asked::Abandon
            } else {
                Asked::Close
            },
            _ => match self.handle_action(action) {
                EventState::Consumed => Asked::Consumed,
                _ => Asked::Ignored,
            },
        }
    }

    /// The input mode while the prompt is up: also while it waits, so that no
    /// letter is a command in the middle of a clone.
    #[verifier::allow_in_spec]
    pub fn mode(&self) -> InputMode
        returns
            InputMode::Insert,
    {
        InputMode::Insert
    }

    /// The keys of the prompt.
    pub open spec fn keys(self) -> Seq<HelpEntry> {
        if self.waiting is Some {
            seq![
                HelpEntry::Section(KEYS_SECTION),
                HelpEntry::bind("Esc", "Stop waiting and cancel").hint("Esc", "cancel").safe()
                    .essential(),
                HelpEntry::bind("Ctrl+C", "Quit"),
            ]
        } else {
            seq![
                HelpEntry::Section(KEYS_SECTION),
                HelpEntry::bind("Enter", "Fetch PR and open worktree").hint("Enter", "open"),
                HelpEntry::bind("F1", "Show this help").hint("F1", "help").aside(),
                HelpEntry::bind("Esc", "Cancel").hint("Esc", "cancel").safe().essential(),
                HelpEntry::bind("Backspace", "Delete character"),
                HelpEntry::bind("Ctrl+C", "Quit"),
            ]
        }
    }

    /// The keys of the prompt: fewer while it waits.
    pub fn help(&self) -> (entries: Vec<HelpEntry>)
        ensures
            entries@ == self.keys(),
    {
        let mut entries: Vec<HelpEntry> = Vec::new();
        entries.push(HelpEntry::Section(KEYS_SECTION));
        if self.waiting.is_some() {
            entries.push(
                HelpEntry::bind("Esc", "Stop waiting and cancel").hint(
                    "Esc",
                    "cancel",
                ).safe().essential(),
            );
            entries.push(HelpEntry::bind("Ctrl+C", "Quit"));
        } else {
            entries.push(
                HelpEntry::bind("Enter", "Fetch PR and open worktree").hint("Enter", "open"),
            );
            entries.push(HelpEntry::bind("F1", "Show this help").hint("F1", "help").aside());
            entries.push(HelpEntry::bind("Esc", "Cancel").hint("Esc", "cancel").safe().essential());
            entries.push(HelpEntry::bind("Backspace", "Delete character"));
            entries.push(HelpEntry::bind("Ctrl+C", "Quit"));
        }
        assert(entries@ =~= self.keys());
        entries
    }
}

/// A prompt that waits is frozen: no key changes it, and a second Enter starts
/// no second lookup.
pub proof fn law_a_waiting_prompt_is_frozen(
    prompt: PrWorktreeComponent,
    action: Action,
    asked: Asked,
    next: PrWorktreeComponent,
)
    requires
        prompt.waiting is Some,
        prompt.answer(action, asked, next),
    ensures
        next == prompt,
        !(asked is Lookup),
{
}

/// Enter looks up exactly the pull request that was typed, and freezes the
/// prompt for as long as that takes.
pub proof fn law_enter_looks_up_what_was_typed(
    prompt: PrWorktreeComponent,
    asked: Asked,
    next: PrWorktreeComponent,
)
    requires
        prompt.waiting is None,
        prompt.answer(Action::Select, asked, next),
    ensures
        asked is Lookup <==> parsed(prompt.input@) is Ok,
        asked is Lookup <==> next.waiting is Some,
        asked matches Asked::Lookup { url, flow } ==> parsed(prompt.input@) == Ok::<
            (Seq<char>, Seq<char>, u64),
            PrUrlError,
        >((url.owner@, url.repo@, url.number)) && flow.typed == prompt.input && flow.auto
            == prompt.auto_clone && next.error is None && next.waiting->0.message@
            == "Looking up "@ + url.owner@ + "/"@ + url.repo@ + " #"@ + decimal_of(
            url.number as nat,
        ),
        !(asked is Lookup) ==> asked is Consumed && next.error is Some,
        next.input == prompt.input && next.character_index == prompt.character_index
            && next.auto_clone == prompt.auto_clone,
{
}

/// Esc closes the prompt; where a job is out, leaving is what gives it up.
pub proof fn law_esc_gives_up_what_is_out(
    prompt: PrWorktreeComponent,
    action: Action,
    asked: Asked,
    next: PrWorktreeComponent,
)
    requires
        prompt.answer(action, asked, next),
    ensures
        asked is Abandon <==> prompt.waiting is Some && (action is ClosePopup
            || action is ExitInsertMode),
        asked is Close <==> prompt.waiting is None && (action is ClosePopup
            || action is ExitInsertMode),
        asked is Lookup ==> action is Select,
        asked is Ignored <==> !(action is Select || action is ClosePopup
            || action is ExitInsertMode || action is InsertChar || action is DeleteChar),
{
}

/// While nothing is out, typing changes the text at the caret, and takes what
/// was said about the last try away.
pub proof fn law_typing_takes_the_failure_away(
    prompt: PrWorktreeComponent,
    c: char,
    asked: Asked,
    next: PrWorktreeComponent,
)
    requires
        prompt.wf(),
        prompt.waiting is None,
        prompt.answer(Action::InsertChar(c), asked, next),
    ensures
        next.input@ == prompt.input@.insert(prompt.character_index as int, c),
        next.character_index == prompt.character_index + 1,
        next.error is None && next.waiting is None && next.auto_clone == prompt.auto_clone,
{
}

/// While nothing is out, Backspace takes out the character before the caret, and
/// what was said about the last try with it; at the start of the text it does
/// nothing.
pub proof fn law_erasing_takes_the_failure_away(
    prompt: PrWorktreeComponent,
    asked: Asked,
    next: PrWorktreeComponent,
)
    requires
        prompt.wf(),
        prompt.waiting is None,
        prompt.answer(Action::DeleteChar, asked, next),
    ensures
        prompt.character_index > 0 ==> next.input@ == prompt.input@.remove(
            prompt.character_index - 1,
        ) && next.character_index == prompt.character_index - 1 && next.error is None,
        prompt.character_index == 0 ==> next == prompt,
{
}

/// A clone that nobody was asked about is told afterwards to be one of git; one
/// that was confirmed, or whose directory was picked, is not told of again.
pub proof fn law_a_clone_is_told_of_once(url: PrUrl, auto: bool, dirs: nat)
    ensures
        clone_notice(url, auto, dirs) is Some <==> auto && dirs == 1,
        clone_notice(url, auto, dirs) matches Some(text) ==> text == "Cloned "@ + url.repo@
            + " with git \u{2014} run `jj git init --colocate` in it for jj"@,
{
}

/// Beneath the text stands what is going on, else why the last try failed, else
/// what a URL looks like; a failed try marks the text.
pub proof fn law_the_prompt_says_where_it_stands(
    shown: PrWorktreeComponent,
    prompt: Prompt,
    theme: Theme,
)
    requires
        shown.is_prompt(prompt, theme),
    ensures
        prompt.value@ == shown.input@,
        prompt.cursor == shown.character_index,
        prompt.valid <==> shown.error is None,
        prompt.context is Some <==> shown.auto_clone,
        prompt.status matches Some(note) && {
            &&& shown.waiting matches Some(waiting) ==> note.0@ == spinner(waiting.frame)@ + " "@
                + waiting.message@ + "\u{2026}"@
            &&& shown.waiting is None ==> (shown.error matches Some(error) ==> note.0@ == error@)
            &&& shown.waiting is None && shown.error is None ==> note.0@
                == "github.com/owner/repo/pull/123"@
        },
{
}

} // verus!
