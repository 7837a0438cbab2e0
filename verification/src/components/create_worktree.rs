//! Naming a new space.

use vstd::prelude::*;

use crate::components::filter::{erased, law_a_character_goes_in_at_the_caret, typed};
use crate::components::help::{footer_entries, footer_of, HelpEntry, KEYS_SECTION};
use crate::components::modal::{is_countable, popup_area, popup_in, Extent};
use crate::components::prompt::{prompt_width, Prompt, PromptView, PROMPT_HEIGHT};
use crate::components::{Action, EventState};
use crate::keymap::InputMode;
use crate::screen::Rect;
use crate::text::{
    char_count, concat, contains_text, from_chars, holds_text, insert_char, is_alnum,
    is_letter_or_digit, remove_char, stands_at, to_chars, upper_of, uppercase,
};
use crate::theme::{self, Style, Theme};
use crate::vcs::Backend;

verus! {

/// A word with a capital.
pub open spec fn capital(word: Seq<char>) -> Seq<char> {
    if word.len() == 0 {
        word
    } else {
        upper_of(word[0]) + word.skip(1)
    }
}

/// `word` with a capital.
pub fn capitalised(word: &str) -> (out: String)
    ensures
        out@ == capital(word@),
{
    let chars = to_chars(word);
    if chars.len() == 0 {
        return word.to_owned();
    }
    let mut out = uppercase(chars[0]);
    let rest = from_chars(&chars, 1, chars.len());
    assert(rest@ =~= word@.skip(1));
    out.append(rest.as_str());
    out
}

/// Whether a branch name may hold this character.
pub open spec fn is_branch_char(c: char) -> bool {
    is_alnum(c) || c == '-' || c == '_' || c == '.' || c == '/'
}

/// Whether a branch name may hold `c`.
pub fn is_valid_branch_char(c: char) -> (yes: bool)
    ensures
        yes == is_branch_char(c),
{
    is_letter_or_digit(c) || c == '-' || c == '_' || c == '.' || c == '/'
}

/// Whether this is the name of a branch.
pub open spec fn is_branch_name(name: Seq<char>) -> bool {
    &&& name.len() > 0
    &&& name[0] != '-' && name[0] != '.'
    &&& name.last() != '.' && name.last() != '/'
    &&& !holds_text(name, ".."@)
    &&& !holds_text(name, "@{"@)
}

/// Whether `name` is the name of a branch.
pub fn is_valid_branch_name(name: &str) -> (yes: bool)
    ensures
        yes == is_branch_name(name@),
{
    let chars = to_chars(name);
    let n: usize = chars.len();
    if n == 0 {
        return false;
    }
    if chars[0] == '-' || chars[0] == '.' {
        return false;
    }
    if chars[n - 1] == '.' || chars[n - 1] == '/' {
        return false;
    }
    !contains_text(name, "..") && !contains_text(name, "@{")
}

/// What a typed character stands for in a name, if anything: a space becomes a
/// dash.
pub open spec fn name_char(c: char) -> Option<char> {
    if c == ' ' {
        Some('-')
    } else if is_branch_char(c) {
        Some(c)
    } else {
        None
    }
}

/// What the prompt made of a key.
#[derive(Debug, PartialEq, Eq)]
pub enum Naming {
    Consumed,
    Ignored,
    Close,
    /// The name changed, and with it perhaps the base it starts from.
    Renamed,
    /// Close, and create the space.
    Create { name: String, backend: Backend, pr_url: Option<String> },
}

/// The prompt for a name.
#[derive(Debug, PartialEq, Eq)]
pub struct CreateWorktreeComponent {
    pub character_index: usize,
    pub new_worktree_name: String,
    pub repo_name: String,
    /// The backend the space is created through.
    pub backend: Backend,
    /// Whether the repository is driven by more than one backend.
    pub colocated: bool,
    pub base_branch_hint: Option<String>,
    pub warning: Option<String>,
    /// The pull request this prompt was opened for.
    pub pr_url: Option<String>,
}

/// A coloured line as the contracts speak of it.
pub open spec fn note_view(note: Option<(String, Style)>) -> Option<(Seq<char>, Style)> {
    match note {
        Some((text, style)) => Some((text@, style)),
        None => None,
    }
}

impl CreateWorktreeComponent {
    /// The caret stands in the name or behind it.
    pub open spec fn wf(self) -> bool {
        self.character_index <= self.new_worktree_name@.len()
    }

    /// The name and the characters before the caret.
    pub open spec fn line(self) -> (Seq<char>, nat) {
        (self.new_worktree_name@, self.character_index as nat)
    }

    /// Whether this is a prompt for a space of a repository that holds `name`,
    /// the caret behind it, and knows no base yet.
    pub open spec fn is_for(
        self,
        repo_name: Seq<char>,
        backend: Backend,
        colocated: bool,
        name: Seq<char>,
    ) -> bool {
        &&& self.wf()
        &&& self.line() == (name, name.len())
        &&& self.repo_name@ == repo_name
        &&& self.backend == backend
        &&& self.colocated == colocated
        &&& self.base_branch_hint is None
    }

    pub fn new(repo_name: String, backend: Backend, colocated: bool) -> (prompt:
        CreateWorktreeComponent)
        ensures
            prompt.is_for(repo_name@, backend, colocated, Seq::empty()),
            prompt.warning is None,
            prompt.pr_url is None,
    {
        CreateWorktreeComponent {
            character_index: 0,
            new_worktree_name: String::new(),
            repo_name,
            backend,
            colocated,
            base_branch_hint: None,
            warning: None,
            pr_url: None,
        }
    }

    /// A prompt that already holds a name, the caret behind it.
    pub fn new_with_branch(
        repo_name: String,
        backend: Backend,
        colocated: bool,
        branch_name: String,
        warning: Option<String>,
    ) -> (prompt: CreateWorktreeComponent)
        ensures
            prompt.is_for(repo_name@, backend, colocated, branch_name@),
            prompt.warning == warning,
            prompt.pr_url is None,
    {
        let character_index: usize = char_count(branch_name.as_str());
        CreateWorktreeComponent {
            character_index,
            new_worktree_name: branch_name,
            repo_name,
            backend,
            colocated,
            base_branch_hint: None,
            warning,
            pr_url: None,
        }
    }

    /// Where the popup sits inside the frame.
    pub fn area(&self, full: Rect) -> (area: Rect)
        requires
            is_countable(full),
        ensures
            area == popup_in(full, prompt_width(55, 36, 90), Extent::fixed(PROMPT_HEIGHT)),
    {
        popup_area(full, prompt_width(55, 36, 90), Extent::fixed(PROMPT_HEIGHT))
    }

    /// What stands beside the label: on a repository that two backends drive,
    /// which of them was picked.
    pub open spec fn aside(self, theme: Theme) -> Option<(Seq<char>, Style)> {
        if self.colocated {
            Some(
                (
                    "colocated \u{2192} "@ + self.backend.space_noun()@
                        + " \u{b7} Tab to switch"@,
                    theme::warning_text(&theme),
                ),
            )
        } else {
            None
        }
    }

    /// What stands beneath the name: a warning, or else where it will start.
    pub open spec fn status(self, theme: Theme) -> Option<(Seq<char>, Style)> {
        match (self.warning, self.base_branch_hint) {
            (Some(warning), _) => Some((warning@, theme::warning_text(&theme))),
            (None, Some(hint)) => Some((hint@, theme::secondary(&theme))),
            (None, None) => None,
        }
    }

    /// The prompt that is drawn.
    pub open spec fn is_prompt(self, prompt: Prompt, theme: Theme) -> bool {
        &&& prompt.title@ == "New "@ + capital(self.backend.space_noun()@)
        &&& prompt.context matches Some(context) && context@ == self.repo_name@ + " \u{b7} "@
            + self.backend.label()@
        &&& prompt.label@ == (match self.backend {
            Backend::Git => "Branch name"@,
            Backend::Jj => "Bookmark name"@,
        })
        &&& note_view(prompt.aside) == self.aside(theme)
        &&& prompt.value == self.new_worktree_name
        &&& prompt.placeholder@ == "type a name\u{2026}"@
        &&& prompt.cursor == self.character_index
        &&& prompt.valid == (self.new_worktree_name@.len() == 0 || is_branch_name(
            self.new_worktree_name@,
        ))
        &&& note_view(prompt.status) == self.status(theme)
        &&& prompt.footer@ == footer_of(self.keys(), KEYS_SECTION@, theme)
    }

    /// The prompt that is drawn: only a name that is wrong is marked, not one
    /// that is unfinished.
    pub fn prompt(&self, theme: &Theme) -> (prompt: Prompt)
        ensures
            self.is_prompt(prompt, *theme),
    {
        let aside = if self.colocated {
            let mut text = concat("colocated \u{2192} ", self.backend.space_noun());
            text.append(" \u{b7} Tab to switch");
            Some((text, theme::warning_text(theme)))
        } else {
            None
        };
        let status = match (&self.warning, &self.base_branch_hint) {
            (Some(warning), _) => Some((warning.clone(), theme::warning_text(theme))),
            (None, Some(hint)) => Some((hint.clone(), theme::secondary(theme))),
            (None, None) => None,
        };
        let mut context = concat(self.repo_name.as_str(), " \u{b7} ");
        context.append(self.backend.label());
        let label = match self.backend {
            Backend::Git => "Branch name",
            Backend::Jj => "Bookmark name",
        };
        let name = self.new_worktree_name.as_str();
        let bindings = self.help();
        Prompt {
            title: concat("New ", capitalised(self.backend.space_noun()).as_str()),
            context: Some(context),
            label: label.to_owned(),
            aside,
            value: self.new_worktree_name.clone(),
            placeholder: "type a name\u{2026}".to_owned(),
            cursor: self.character_index,
            valid: name.is_empty() || is_valid_branch_name(name),
            status,
            footer: footer_entries(&bindings, KEYS_SECTION, theme),
        }
    }

    /// The prompt as it is drawn into `area`.
    pub fn draw(&self, area: Rect, theme: &Theme) -> (view: Option<PromptView>)
        requires
            is_countable(area),
        ensures
            exists|prompt: Prompt|
                #[trigger] self.is_prompt(prompt, *theme) && prompt.is_drawn(area, *theme, view),
    {
        let prompt = self.prompt(theme);
        prompt.render(area, theme)
    }

    /// The name after a key, and the characters before the caret.
    pub open spec fn line_after(self, action: Action) -> (Seq<char>, nat) {
        let (name, cursor) = self.line();
        match action {
            Action::InsertChar(c) => match name_char(c) {
                Some(ch) => typed(name, cursor, ch),
                None => (name, cursor),
            },
            Action::DeleteChar => erased(name, cursor),
            _ => (name, cursor),
        }
    }

    /// Types into the name.
    pub fn handle_action(&mut self, action: Action) -> (state: EventState)
        requires
            old(self).wf(),
        ensures
            final(self).wf(),
            state == (match action {
                Action::InsertChar(_) | Action::DeleteChar => EventState::Consumed,
                _ => EventState::NotConsumed,
            }),
            final(self).line() == old(self).line_after(action),
            *final(self) == (CreateWorktreeComponent {
                character_index: final(self).character_index,
                new_worktree_name: final(self).new_worktree_name,
                ..*old(self)
            }),
    {
        match action {
            Action::InsertChar(c) => {
                self.enter_char(c);
                EventState::Consumed
            },
            Action::DeleteChar => {
                self.delete_char();
                EventState::Consumed
            },
            _ => EventState::NotConsumed,
        }
    }

    fn enter_char(&mut self, new_char: char)
        requires
            old(self).wf(),
        ensures
            final(self).wf(),
            final(self).line() == old(self).line_after(Action::InsertChar(new_char)),
            *final(self) == (CreateWorktreeComponent {
                character_index: final(self).character_index,
                new_worktree_name: final(self).new_worktree_name,
                ..*old(self)
            }),
    {
        let ch = if new_char == ' ' {
            '-'
        } else if is_valid_branch_char(new_char) {
            new_char
        } else {
            return;
        };
        self.new_worktree_name = insert_char(
            self.new_worktree_name.as_str(),
            self.character_index,
            ch,
        );
        let n: usize = char_count(self.new_worktree_name.as_str());
        assert(self.character_index < n);
        self.character_index = self.character_index + 1;
    }

    fn delete_char(&mut self)
        requires
            old(self).wf(),
        ensures
            final(self).wf(),
            final(self).line() == old(self).line_after(Action::DeleteChar),
            *final(self) == (CreateWorktreeComponent {
                character_index: final(self).character_index,
                new_worktree_name: final(self).new_worktree_name,
                ..*old(self)
            }),
    {
        if self.character_index > 0 {
            self.new_worktree_name = remove_char(
                self.new_worktree_name.as_str(),
                self.character_index - 1,
            );
            self.character_index = self.character_index - 1;
        }
    }

    /// The backend after a key: Tab switches it where there is a choice.
    pub open spec fn backend_after(self, action: Action) -> Backend {
        if action is FocusNext && self.colocated {
            match self.backend {
                Backend::Jj => Backend::Git,
                Backend::Git => Backend::Jj,
            }
        } else {
            self.backend
        }
    }

    /// What a key comes to.
    pub open spec fn answer(self, action: Action, naming: Naming) -> bool {
        match action {
            Action::Select => if self.new_worktree_name@.len() == 0 {
                naming is Close
            } else {
                naming == (Naming::Create {
                    name: self.new_worktree_name,
                    backend: self.backend,
                    pr_url: self.pr_url,
                })
            },
            Action::ClosePopup | Action::ExitInsertMode => naming is Close,
            Action::FocusNext => if self.colocated {
                naming is Renamed
            } else {
                naming is Ignored
            },
            Action::InsertChar(_) | Action::DeleteChar => naming is Renamed,
            _ => naming is Ignored,
        }
    }

    /// Whether `next` is this prompt after a key.
    pub open spec fn typed_after(self, action: Action, next: CreateWorktreeComponent) -> bool {
        &&& next.line() == self.line_after(action)
        &&& next == (CreateWorktreeComponent {
            character_index: next.character_index,
            new_worktree_name: next.new_worktree_name,
            backend: self.backend_after(action),
            ..self
        })
    }

    /// Acts on a key.
    pub fn handle(&mut self, action: Action) -> (naming: Naming)
        requires
            old(self).wf(),
        ensures
            final(self).wf(),
            old(self).answer(action, naming),
            old(self).typed_after(action, *final(self)),
    {
        match action {
            Action::Select => if self.new_worktree_name.as_str().is_empty() {
                Naming::Close
            } else {
                Naming::Create {
                    name: self.new_worktree_name.clone(),
                    backend: self.backend,
                    pr_url: match &self.pr_url {
                        Some(url) => Some(url.clone()),
                        None => None,
                    },
                }
            },
            Action::ClosePopup | Action::ExitInsertMode => Naming::Close,
            Action::FocusNext => {
                if !self.colocated {
                    return Naming::Ignored;
                }
                self.backend = match self.backend {
                    Backend::Jj => Backend::Git,
                    Backend::Git => Backend::Jj,
                };
                Naming::Renamed
            },
            _ => match self.handle_action(action) {
                EventState::Consumed => Naming::Renamed,
                _ => Naming::Ignored,
            },
        }
    }

    /// Says which base the name will start from.
    pub fn set_base_hint(&mut self, hint: Option<String>)
        ensures
            *final(self) == (CreateWorktreeComponent { base_branch_hint: hint, ..*old(self) }),
    {
        self.base_branch_hint = hint;
    }

    /// The input mode while the prompt is up.
    #[verifier::allow_in_spec]
    pub fn mode(&self) -> InputMode
        returns
            InputMode::Insert,
    {
        InputMode::Insert
    }

    /// The keys of the prompt.
    pub open spec fn keys(self) -> Seq<HelpEntry> {
        seq![
            HelpEntry::Section(KEYS_SECTION),
            HelpEntry::bind("Enter", "Create worktree").hint("Enter", "create"),
            HelpEntry::bind("F1", "Show this help").hint("F1", "help").aside(),
            HelpEntry::bind("Esc", "Cancel").hint("Esc", "cancel").safe().essential(),
            HelpEntry::bind("Backspace", "Delete character"),
            HelpEntry::bind("Ctrl+C", "Quit"),
        ] + (if self.colocated {
            seq![HelpEntry::bind("Tab", "Switch backend (git / jj)").hint("Tab", "backend")]
        } else {
            Seq::empty()
        })
    }

    /// The keys of the prompt: Tab only where there is a backend to switch to.
    pub fn help(&self) -> (entries: Vec<HelpEntry>)
        ensures
            entries@ == self.keys(),
    {
        let mut entries: Vec<HelpEntry> = Vec::new();
        entries.push(HelpEntry::Section(KEYS_SECTION));
        entries.push(HelpEntry::bind("Enter", "Create worktree").hint("Enter", "create"));
        entries.push(HelpEntry::bind("F1", "Show this help").hint("F1", "help").aside());
        entries.push(HelpEntry::bind("Esc", "Cancel").hint("Esc", "cancel").safe().essential());
        entries.push(HelpEntry::bind("Backspace", "Delete character"));
        entries.push(HelpEntry::bind("Ctrl+C", "Quit"));
        if self.colocated {
            entries.push(
                HelpEntry::bind("Tab", "Switch backend (git / jj)").hint("Tab", "backend"),
            );
        }
        assert(entries@ =~= self.keys());
        entries
    }
}

/// Whatever is typed, a name holds nothing that a branch name may not hold.
pub proof fn law_a_name_holds_only_branch_characters(
    prompt: CreateWorktreeComponent,
    action: Action,
)
    requires
        prompt.wf(),
        forall|i: int|
            0 <= i < prompt.new_worktree_name@.len() ==> is_branch_char(
                #[trigger] prompt.new_worktree_name@[i],
            ),
    ensures
        forall|i: int|
            0 <= i < prompt.line_after(action).0.len() ==> is_branch_char(
                #[trigger] prompt.line_after(action).0[i],
            ),
{
    let (name, cursor) = prompt.line();
    let after = prompt.line_after(action).0;
    assert forall|i: int| 0 <= i < after.len() implies is_branch_char(#[trigger] after[i]) by {
        match action {
            Action::InsertChar(c) => {
                if name_char(c) is Some && i > cursor {
                    assert(after[i] == name[i - 1]);
                } else if name_char(c) is Some && i < cursor {
                    assert(after[i] == name[i]);
                }
            },
            Action::DeleteChar => {
                if cursor > 0 && i >= cursor - 1 {
                    assert(after[i] == name[i + 1]);
                } else {
                    assert(after[i] == name[i]);
                }
            },
            _ => {
                assert(after[i] == name[i]);
            },
        }
    }
}

/// A branch may be called anything that does not start with a dash or a dot,
/// does not end in a dot or a slash, and holds neither two dots in a row nor an
/// at sign before a brace; it has to be called something.
pub proof fn law_what_a_branch_may_be_called(name: Seq<char>)
    ensures
        is_branch_name(name) <==> {
            &&& name.len() > 0
            &&& name.first() != '-' && name.first() != '.'
            &&& name.last() != '.' && name.last() != '/'
            &&& forall|i: int|
                0 <= i < name.len() - 1 ==> !(#[trigger] name[i] == '.' && name[i + 1] == '.')
            &&& forall|i: int|
                0 <= i < name.len() - 1 ==> !(#[trigger] name[i] == '@' && name[i + 1] == '{')
        },
{
    reveal_strlit("..");
    reveal_strlit("@{");
    lemma_holds_pair(name, ".."@);
    lemma_holds_pair(name, "@{"@);
}

proof fn lemma_holds_pair(name: Seq<char>, pair: Seq<char>)
    requires
        pair.len() == 2,
    ensures
        holds_text(name, pair) <==> exists|i: int|
            0 <= i < name.len() - 1 && #[trigger] name[i] == pair[0] && name[i + 1] == pair[1],
{
    if holds_text(name, pair) {
        let k = choose|k: int| stands_at(name, pair, k);
        assert(name.subrange(k, k + pair.len())[0] == name[k]);
        assert(name.subrange(k, k + pair.len())[1] == name[k + 1]);
    }
    if exists|i: int|
        0 <= i < name.len() - 1 && #[trigger] name[i] == pair[0] && name[i + 1] == pair[1] {
        let i = choose|i: int|
            0 <= i < name.len() - 1 && #[trigger] name[i] == pair[0] && name[i + 1] == pair[1];
        assert(name.subrange(i, i + pair.len()) =~= pair);
        assert(stands_at(name, pair, i));
    }
}

/// A letter, a digit, a dash, an underscore, a dot and a slash are typed as they
/// are, a space as a dash, and any other character changes nothing.
pub proof fn law_a_space_is_typed_as_a_dash(
    prompt: CreateWorktreeComponent,
    c: char,
    next: CreateWorktreeComponent,
)
    requires
        prompt.wf(),
        prompt.typed_after(Action::InsertChar(c), next),
    ensures
        ({
            let name = prompt.new_worktree_name@;
            let i = prompt.character_index as int;
            let kept = is_alnum(c) || c == '-' || c == '_' || c == '.' || c == '/';
            &&& c == ' ' ==> next.new_worktree_name@ == name.insert(i, '-')
            &&& c != ' ' && kept ==> next.new_worktree_name@ == name.insert(i, c)
            &&& c == ' ' || kept ==> next.character_index == prompt.character_index + 1
            &&& c != ' ' && !kept ==> next.new_worktree_name@ == name && next.character_index
                == prompt.character_index
        }),
        next.backend == prompt.backend,
        next.repo_name == prompt.repo_name && next.pr_url == prompt.pr_url && next.warning
            == prompt.warning && next.colocated == prompt.colocated,
{
    law_a_character_goes_in_at_the_caret(
        prompt.new_worktree_name@,
        prompt.character_index as nat,
        c,
    );
}

/// Enter asks for a space of the name that was typed, through the backend that
/// was picked, for the pull request the prompt was opened for. Without a name
/// there is nothing to create, and the prompt closes.
pub proof fn law_enter_asks_for_what_was_typed(
    prompt: CreateWorktreeComponent,
    naming: Naming,
    next: CreateWorktreeComponent,
)
    requires
        prompt.answer(Action::Select, naming),
        prompt.typed_after(Action::Select, next),
    ensures
        prompt.new_worktree_name@.len() == 0 <==> naming is Close,
        prompt.new_worktree_name@.len() > 0 <==> naming is Create,
        naming matches Naming::Create { name, backend, pr_url } ==> name
            == prompt.new_worktree_name && backend == prompt.backend && pr_url == prompt.pr_url,
        next.new_worktree_name@ == prompt.new_worktree_name@ && next.backend == prompt.backend,
{
}

/// Nothing but Enter creates a space, and leaving the prompt always closes it.
pub proof fn law_only_enter_creates(
    prompt: CreateWorktreeComponent,
    action: Action,
    naming: Naming,
)
    requires
        prompt.answer(action, naming),
    ensures
        naming is Create ==> action is Select,
        action is ClosePopup || action is ExitInsertMode ==> naming is Close,
        action is InsertChar || action is DeleteChar ==> naming is Renamed,
        !(action is Select || action is ClosePopup || action is ExitInsertMode
            || action is InsertChar || action is DeleteChar || action is FocusNext)
            ==> naming is Ignored,
{
}

/// Tab goes to the other backend, and twice goes back, where the repository has
/// two; elsewhere it does nothing. It never touches the name.
pub proof fn law_tab_switches_the_backend(
    prompt: CreateWorktreeComponent,
    naming: Naming,
    next: CreateWorktreeComponent,
    after: CreateWorktreeComponent,
)
    requires
        prompt.answer(Action::FocusNext, naming),
        prompt.typed_after(Action::FocusNext, next),
        next.typed_after(Action::FocusNext, after),
    ensures
        prompt.colocated ==> next.backend != prompt.backend && naming is Renamed,
        !prompt.colocated ==> next.backend == prompt.backend && naming is Ignored,
        after.backend == prompt.backend,
        next.new_worktree_name@ == prompt.new_worktree_name@,
{
}

/// Backspace takes out the character before the caret.
pub proof fn law_backspace_shortens_the_name(
    prompt: CreateWorktreeComponent,
    next: CreateWorktreeComponent,
)
    requires
        prompt.wf(),
        prompt.typed_after(Action::DeleteChar, next),
    ensures
        prompt.character_index > 0 ==> next.new_worktree_name@
            == prompt.new_worktree_name@.remove(prompt.character_index - 1)
            && next.character_index == prompt.character_index - 1,
        prompt.character_index == 0 ==> next.new_worktree_name@ == prompt.new_worktree_name@
            && next.character_index == 0,
        next.backend == prompt.backend,
{
}

/// The prompt says what it names, and in which repository, and marks a name that
/// no branch may have, though not one that is still to be typed. A warning goes
/// before where the name would start.
pub proof fn law_a_name_that_is_wrong_is_marked(
    shown: CreateWorktreeComponent,
    prompt: Prompt,
    theme: Theme,
)
    requires
        shown.is_prompt(prompt, theme),
    ensures
        prompt.value@ == shown.new_worktree_name@,
        prompt.cursor == shown.character_index,
        !prompt.valid <==> shown.new_worktree_name@.len() > 0 && !is_branch_name(
            shown.new_worktree_name@,
        ),
        prompt.label@ == (if shown.backend == Backend::Jj {
            "Bookmark name"@
        } else {
            "Branch name"@
        }),
        prompt.aside is Some <==> shown.colocated,
        shown.warning matches Some(warning) ==> (prompt.status matches Some(note) && note.0@
            == warning@ && note.1 == theme::warning_text(&theme)),
        shown.warning is None ==> (shown.base_branch_hint matches Some(hint) ==> (
        prompt.status matches Some(note) && note.0@ == hint@)),
        shown.warning is None && shown.base_branch_hint is None ==> prompt.status is None,
{
}

} // verus!
