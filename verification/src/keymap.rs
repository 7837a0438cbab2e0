//! Which key means what, in which mode.

use vstd::prelude::*;

use crate::components::Action;

verus! {

/// Whether keys are commands or text.
#[derive(Debug, Clone, Copy, PartialEq, Eq, Structural)]
pub enum InputMode {
    Normal,
    Insert,
}

/// The key itself.
#[derive(Debug, Clone, Copy, PartialEq, Eq, Structural)]
pub enum KeyCode {
    Char(char),
    F(u8),
    Enter,
    Esc,
    Tab,
    Backspace,
    Up,
    Down,
    Home,
    End,
    /// A key nothing is bound to.
    Other,
}

/// What was held down with it.
#[derive(Debug, Clone, Copy, PartialEq, Eq, Structural)]
pub enum KeyModifiers {
    Nothing,
    Shift,
    Control,
    /// Any other combination.
    Other,
}

#[derive(Debug, Clone, Copy, PartialEq, Eq, Structural)]
pub struct KeyEvent {
    pub code: KeyCode,
    pub modifiers: KeyModifiers,
}

/// What an unmodified key means as a command.
pub open spec fn command_of(code: KeyCode) -> Option<Action> {
    match code {
        KeyCode::Char('j') | KeyCode::Down => Some(Action::MoveDown),
        KeyCode::Char('k') | KeyCode::Up => Some(Action::MoveUp),
        KeyCode::Char('g') | KeyCode::Home => Some(Action::GoFirst),
        KeyCode::Char('G') | KeyCode::End => Some(Action::GoLast),
        KeyCode::Enter => Some(Action::Select),
        KeyCode::Char('d') => Some(Action::DeleteWithConfirmation),
        KeyCode::Char('D') => Some(Action::ForceDelete),
        KeyCode::Char('n') => Some(Action::OpenRepositories),
        KeyCode::Char('p') => Some(Action::OpenPrWorktree),
        KeyCode::Char('P') => Some(Action::OpenPrWorktreeAutoClone),
        KeyCode::Char('r') => Some(Action::Refresh),
        KeyCode::Char('R') => Some(Action::Rescan),
        KeyCode::Char('f') => Some(Action::FetchSelected),
        KeyCode::Esc => Some(Action::ClosePopup),
        KeyCode::Char('/') | KeyCode::Char('i') => Some(Action::EnterInsertMode),
        KeyCode::Tab => Some(Action::FocusNext),
        KeyCode::Char('?') | KeyCode::F(1) => Some(Action::ShowHelp),
        KeyCode::Char('q') => Some(Action::Quit),
        _ => None,
    }
}

/// The commands a terminal may report with the shift that types them.
pub open spec fn is_shifted_command(code: KeyCode) -> bool {
    code == KeyCode::Char('G') || code == KeyCode::Char('D') || code == KeyCode::Char('P') || code
        == KeyCode::Char('R')
}

/// What a key means as a command.
pub open spec fn normal_action(key: KeyEvent) -> Option<Action> {
    match key.modifiers {
        KeyModifiers::Nothing => command_of(key.code),
        KeyModifiers::Shift => if is_shifted_command(key.code) {
            command_of(key.code)
        } else {
            None
        },
        KeyModifiers::Control => if key.code == KeyCode::Char('c') {
            Some(Action::Quit)
        } else {
            None
        },
        KeyModifiers::Other => None,
    }
}

/// What a key means while text is being typed.
pub open spec fn insert_action(key: KeyEvent) -> Option<Action> {
    if key.modifiers is Control {
        match key.code {
            KeyCode::Char('c') => Some(Action::Quit),
            KeyCode::Char('j') | KeyCode::Char('n') => Some(Action::MoveDown),
            KeyCode::Char('k') | KeyCode::Char('p') => Some(Action::MoveUp),
            _ => None,
        }
    } else {
        match key.code {
            KeyCode::F(1) => Some(Action::ShowHelp),
            KeyCode::Esc => Some(Action::ExitInsertMode),
            KeyCode::Enter => Some(Action::Select),
            KeyCode::Tab => Some(Action::FocusNext),
            KeyCode::Backspace => Some(Action::DeleteChar),
            KeyCode::Char(c) => Some(Action::InsertChar(c)),
            KeyCode::Down => Some(Action::MoveDown),
            KeyCode::Up => Some(Action::MoveUp),
            _ => None,
        }
    }
}

/// What a key means in a mode.
pub open spec fn action_of(mode: InputMode, key: KeyEvent) -> Option<Action> {
    match mode {
        InputMode::Normal => normal_action(key),
        InputMode::Insert => insert_action(key),
    }
}

/// The action a key stands for, or `None` if nothing is bound to it.
pub fn resolve(mode: InputMode, key: KeyEvent) -> (action: Option<Action>)
    ensures
        action == action_of(mode, key),
{
    match mode {
        InputMode::Normal => resolve_normal(key),
        InputMode::Insert => resolve_insert(key),
    }
}

fn resolve_normal(key: KeyEvent) -> (action: Option<Action>)
    ensures
        action == normal_action(key),
{
    match (key.code, key.modifiers) {
        (KeyCode::Char('j'), KeyModifiers::Nothing) | (KeyCode::Down, KeyModifiers::Nothing) => {
            Some(Action::MoveDown)
        },
        (KeyCode::Char('k'), KeyModifiers::Nothing) | (KeyCode::Up, KeyModifiers::Nothing) => {
            Some(Action::MoveUp)
        },
        (KeyCode::Char('g'), KeyModifiers::Nothing) | (KeyCode::Home, KeyModifiers::Nothing) => {
            Some(Action::GoFirst)
        },
        (KeyCode::Char('G'), KeyModifiers::Nothing)
        | (KeyCode::Char('G'), KeyModifiers::Shift)
        | (KeyCode::End, KeyModifiers::Nothing) => Some(Action::GoLast),
        (KeyCode::Enter, KeyModifiers::Nothing) => Some(Action::Select),
        (KeyCode::Char('d'), KeyModifiers::Nothing) => Some(Action::DeleteWithConfirmation),
        (KeyCode::Char('D'), KeyModifiers::Nothing) | (KeyCode::Char('D'), KeyModifiers::Shift) => {
            Some(Action::ForceDelete)
        },
        (KeyCode::Char('n'), KeyModifiers::Nothing) => Some(Action::OpenRepositories),
        (KeyCode::Char('p'), KeyModifiers::Nothing) => Some(Action::OpenPrWorktree),
        (KeyCode::Char('P'), KeyModifiers::Nothing) | (KeyCode::Char('P'), KeyModifiers::Shift) => {
            Some(Action::OpenPrWorktreeAutoClone)
        },
        (KeyCode::Char('r'), KeyModifiers::Nothing) => Some(Action::Refresh),
        (KeyCode::Char('R'), KeyModifiers::Nothing) | (KeyCode::Char('R'), KeyModifiers::Shift) => {
            Some(Action::Rescan)
        },
        (KeyCode::Char('f'), KeyModifiers::Nothing) => Some(Action::FetchSelected),
        (KeyCode::Esc, KeyModifiers::Nothing) => Some(Action::ClosePopup),
        (KeyCode::Char('/'), KeyModifiers::Nothing)
        | (KeyCode::Char('i'), KeyModifiers::Nothing) => Some(Action::EnterInsertMode),
        (KeyCode::Tab, KeyModifiers::Nothing) => Some(Action::FocusNext),
        (KeyCode::Char('?'), KeyModifiers::Nothing) | (KeyCode::F(1), KeyModifiers::Nothing) => {
            Some(Action::ShowHelp)
        },
        (KeyCode::Char('q'), KeyModifiers::Nothing) => Some(Action::Quit),
        (KeyCode::Char('c'), KeyModifiers::Control) => Some(Action::Quit),
        _ => None,
    }
}

fn resolve_insert(key: KeyEvent) -> (action: Option<Action>)
    ensures
        action == insert_action(key),
{
    if key.modifiers == KeyModifiers::Control {
        return match key.code {
            KeyCode::Char('c') => Some(Action::Quit),
            KeyCode::Char('j') | KeyCode::Char('n') => Some(Action::MoveDown),
            KeyCode::Char('k') | KeyCode::Char('p') => Some(Action::MoveUp),
            _ => None,
        };
    }
    match key.code {
        KeyCode::F(1) => Some(Action::ShowHelp),
        KeyCode::Esc => Some(Action::ExitInsertMode),
        KeyCode::Enter => Some(Action::Select),
        KeyCode::Tab => Some(Action::FocusNext),
        KeyCode::Backspace => Some(Action::DeleteChar),
        KeyCode::Char(c) => Some(Action::InsertChar(c)),
        KeyCode::Down => Some(Action::MoveDown),
        KeyCode::Up => Some(Action::MoveUp),
        _ => None,
    }
}

/// No command takes a character away from a text field: unless Control is held
/// down, a character key types its character.
pub proof fn law_typing_is_literal(c: char, modifiers: KeyModifiers)
    requires
        !(modifiers is Control),
    ensures
        action_of(InputMode::Insert, KeyEvent { code: KeyCode::Char(c), modifiers }) == Some(
            Action::InsertChar(c),
        ),
{
}

/// Help and the way out answer to the same keys in both modes.
pub proof fn law_help_and_quit_in_both_modes(mode: InputMode)
    ensures
        action_of(mode, KeyEvent { code: KeyCode::F(1), modifiers: KeyModifiers::Nothing }) == Some(
            Action::ShowHelp,
        ),
        action_of(mode, KeyEvent { code: KeyCode::Char('c'), modifiers: KeyModifiers::Control })
            == Some(Action::Quit),
{
}

/// Deleting is reachable by `d` and by `D` alone.
pub proof fn law_deleting_keys(mode: InputMode, key: KeyEvent)
    requires
        action_of(mode, key) == Some(Action::DeleteWithConfirmation) || action_of(mode, key)
            == Some(Action::ForceDelete),
    ensures
        mode is Normal,
        key.code == KeyCode::Char('d') || key.code == KeyCode::Char('D'),
{
}

/// A command that may be reported with its shift means the same either way.
pub proof fn law_shift_is_not_needed(code: KeyCode)
    requires
        is_shifted_command(code),
    ensures
        action_of(InputMode::Normal, KeyEvent { code, modifiers: KeyModifiers::Shift })
            == action_of(InputMode::Normal, KeyEvent { code, modifiers: KeyModifiers::Nothing }),
{
}

/// Every command has its keys, and answers to no others: a letter or its arrow
/// for moving, one letter for each piece of work, and Ctrl+C for leaving.
pub proof fn law_every_command_has_its_keys(key: KeyEvent)
    ensures
        ({
            let plain = key.modifiers is Nothing;
            let capital = key.modifiers is Nothing || key.modifiers is Shift;
            let means = action_of(InputMode::Normal, key);
            &&& means == Some(Action::MoveDown) <==> plain && (key.code == KeyCode::Char('j')
                || key.code == KeyCode::Down)
            &&& means == Some(Action::MoveUp) <==> plain && (key.code == KeyCode::Char('k')
                || key.code == KeyCode::Up)
            &&& means == Some(Action::GoFirst) <==> plain && (key.code == KeyCode::Char('g')
                || key.code == KeyCode::Home)
            &&& means == Some(Action::GoLast) <==> (capital && key.code == KeyCode::Char('G')) || (
            plain && key.code == KeyCode::End)
            &&& means == Some(Action::Select) <==> plain && key.code == KeyCode::Enter
            &&& means == Some(Action::DeleteWithConfirmation) <==> plain && key.code
                == KeyCode::Char('d')
            &&& means == Some(Action::ForceDelete) <==> capital && key.code == KeyCode::Char('D')
            &&& means == Some(Action::OpenRepositories) <==> plain && key.code == KeyCode::Char('n')
            &&& means == Some(Action::OpenPrWorktree) <==> plain && key.code == KeyCode::Char('p')
            &&& means == Some(Action::OpenPrWorktreeAutoClone) <==> capital && key.code
                == KeyCode::Char('P')
            &&& means == Some(Action::Refresh) <==> plain && key.code == KeyCode::Char('r')
            &&& means == Some(Action::Rescan) <==> capital && key.code == KeyCode::Char('R')
            &&& means == Some(Action::FetchSelected) <==> plain && key.code == KeyCode::Char('f')
            &&& means == Some(Action::ClosePopup) <==> plain && key.code == KeyCode::Esc
            &&& means == Some(Action::EnterInsertMode) <==> plain && (key.code == KeyCode::Char('/')
                || key.code == KeyCode::Char('i'))
            &&& means == Some(Action::FocusNext) <==> plain && key.code == KeyCode::Tab
            &&& means == Some(Action::ShowHelp) <==> plain && (key.code == KeyCode::Char('?')
                || key.code == KeyCode::F(1))
            &&& means == Some(Action::Quit) <==> (plain && key.code == KeyCode::Char('q')) || (
            key.modifiers is Control && key.code == KeyCode::Char('c'))
        }),
{
}

/// While text is typed, the keys that are no characters keep to what they are
/// for, and with Control held down the list is moved in from the home row.
pub proof fn law_what_is_no_character_is_a_command(key: KeyEvent)
    ensures
        ({
            let held = key.modifiers is Control;
            let means = action_of(InputMode::Insert, key);
            &&& means == Some(Action::Select) <==> !held && key.code == KeyCode::Enter
            &&& means == Some(Action::ExitInsertMode) <==> !held && key.code == KeyCode::Esc
            &&& means == Some(Action::FocusNext) <==> !held && key.code == KeyCode::Tab
            &&& means == Some(Action::DeleteChar) <==> !held && key.code == KeyCode::Backspace
            &&& means == Some(Action::ShowHelp) <==> !held && key.code == KeyCode::F(1)
            &&& means == Some(Action::MoveDown) <==> (!held && key.code == KeyCode::Down) || (held
                && (key.code == KeyCode::Char('j') || key.code == KeyCode::Char('n')))
            &&& means == Some(Action::MoveUp) <==> (!held && key.code == KeyCode::Up) || (held && (
            key.code == KeyCode::Char('k') || key.code == KeyCode::Char('p')))
            &&& means == Some(Action::Quit) <==> held && key.code == KeyCode::Char('c')
            &&& means is Some && means->0 is InsertChar <==> !held && key.code is Char
        }),
{
}

} // verus!
