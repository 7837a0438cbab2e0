use shanti::components::Action;
use shanti::keymap::{resolve, InputMode, KeyCode, KeyEvent, KeyModifiers};

fn key(code: KeyCode) -> KeyEvent {
    KeyEvent {
        code,
        modifiers: KeyModifiers::Nothing,
    }
}

#[test]
fn f1_opens_help_in_both_modes() {
    assert_eq!(
        resolve(InputMode::Normal, key(KeyCode::F(1))),
        Some(Action::ShowHelp)
    );
    assert_eq!(
        resolve(InputMode::Insert, key(KeyCode::F(1))),
        Some(Action::ShowHelp)
    );
}

#[test]
fn refresh_and_rescan_are_different_keys() {
    assert_eq!(
        resolve(InputMode::Normal, key(KeyCode::Char('r'))),
        Some(Action::Refresh)
    );
    assert_eq!(
        resolve(InputMode::Normal, key(KeyCode::Char('R'))),
        Some(Action::Rescan)
    );
    assert_eq!(
        resolve(
            InputMode::Normal,
            KeyEvent {
                code: KeyCode::Char('R'),
                modifiers: KeyModifiers::Shift
            }
        ),
        Some(Action::Rescan),
        "a terminal that reports the shift must not lose the binding"
    );
    assert_eq!(
        resolve(InputMode::Normal, key(KeyCode::Char('f'))),
        Some(Action::FetchSelected)
    );
}

#[test]
fn refresh_and_fetch_stay_literal_in_insert_mode() {
    for c in ['r', 'R', 'f'] {
        assert_eq!(
            resolve(InputMode::Insert, key(KeyCode::Char(c))),
            Some(Action::InsertChar(c)),
            "{c} was stolen from the filter"
        );
    }
}

#[test]
fn question_mark_stays_a_literal_in_insert_mode() {
    assert_eq!(
        resolve(InputMode::Insert, key(KeyCode::Char('?'))),
        Some(Action::InsertChar('?'))
    );
    assert_eq!(
        resolve(InputMode::Normal, key(KeyCode::Char('?'))),
        Some(Action::ShowHelp)
    );
}

#[test]
fn control_c_quits_in_both_modes() {
    let quit = KeyEvent {
        code: KeyCode::Char('c'),
        modifiers: KeyModifiers::Control,
    };
    assert_eq!(resolve(InputMode::Normal, quit), Some(Action::Quit));
    assert_eq!(resolve(InputMode::Insert, quit), Some(Action::Quit));
}

#[test]
fn a_key_nothing_is_bound_to_means_nothing() {
    assert_eq!(resolve(InputMode::Normal, key(KeyCode::Char('z'))), None);
    assert_eq!(resolve(InputMode::Normal, key(KeyCode::Other)), None);
    assert_eq!(resolve(InputMode::Insert, key(KeyCode::Other)), None);
}
