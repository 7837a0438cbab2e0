use shanti::components::notify::{Notifications, Severity, VISIBLE_FOR};
use shanti::components::worktrees::status::status_zone;
use shanti::keymap::InputMode;
use shanti::theme::Theme;

const MILLISECOND: u64 = 1_000_000;

#[test]
fn a_message_stays_up_until_its_time_is_out() {
    let mut notifications = Notifications::default();
    notifications.error("no such remote", 5_000);
    let shown_at = notifications.current().expect("shown").shown_at;

    notifications.expire(shown_at + VISIBLE_FOR - MILLISECOND);
    assert!(
        notifications.current().is_some(),
        "a message the user may still be reading was dropped"
    );

    notifications.expire(shown_at + VISIBLE_FOR);
    assert!(
        notifications.current().is_none(),
        "a message outlived its clock"
    );
}

#[test]
fn a_newer_message_restarts_the_clock() {
    let mut notifications = Notifications::default();
    notifications.info("PR is merged", 1_000);
    let first = notifications.current().expect("shown").shown_at;

    notifications.error("delete failed", 2_000);
    let second = notifications.current().expect("shown").shown_at;

    assert!(second >= first);
    notifications.expire(first + VISIBLE_FOR);
    assert_eq!(
        notifications.current().map(|n| n.severity),
        Some(Severity::Error),
        "the newer message expired on the older one's clock"
    );
}

#[test]
fn the_newest_message_is_the_one_on_screen() {
    let mut notifications = Notifications::default();
    notifications.info("PR is merged — existing worktree selected", 0);
    notifications.error("Hook failed", 1);

    let current = notifications.current().expect("shown");
    assert_eq!(current.severity, Severity::Error);
    assert_eq!(current.text, "Hook failed");
}

#[test]
fn success_takes_a_stale_failure_down_at_once() {
    let mut notifications = Notifications::default();
    notifications.error("could not create the space", 0);
    notifications.clear();
    assert!(notifications.current().is_none());
}

#[test]
fn a_clock_that_stands_before_a_message_keeps_it() {
    let mut notifications = Notifications::default();
    notifications.warn("branch may be deleted", 900);
    notifications.expire(100);
    assert_eq!(
        notifications.current().map(|n| n.severity),
        Some(Severity::Warning)
    );
}

#[test]
fn a_message_is_drawn_in_the_style_of_its_severity() {
    let theme = Theme::tokyo_night();
    let mut notifications = Notifications::default();
    notifications.warn("careful", 0);
    let (line, _) = status_zone(InputMode::Normal, 120, notifications.current(), &theme);
    assert!(line
        .spans
        .iter()
        .any(|span| span.content.contains("careful") && span.style == Severity::Warning.style(&theme)));
}
