use shanti::components::confirm::wrapped_rows;
use shanti::components::create_worktree::CreateWorktreeComponent;
use shanti::components::filter::FilterComponent;
use shanti::components::help::{worktrees_bindings, HelpComponent};
use shanti::components::list::{retain, step, ItemOrder};
use shanti::components::modal::{gutter, place_caret, place_cursor};
use shanti::components::prompt::{confirm_and_cancel, footer};
use shanti::components::theme_picker::unsaved_text;
use shanti::components::Action;
use shanti::jobs::background::Background;
use shanti::jobs::in_flight::{Kind, TrackedJob};
use shanti::jobs::{Job, Worker};
use shanti::order::{arrange, NameRank};
use shanti::screen::{Line, Rect};
use shanti::theme::{text, Theme};
use shanti::vcs::{Backend, SpaceTip};

fn rect(x: u16, y: u16, width: u16, height: u16) -> Rect {
    Rect {
        x,
        y,
        width,
        height,
    }
}

#[test]
fn a_move_ends_on_a_row() {
    assert_eq!(step(ItemOrder::Next, None, 3), Some(0));
    assert_eq!(step(ItemOrder::Next, Some(2), 3), Some(2));
    assert_eq!(step(ItemOrder::Next, Some(9), 3), Some(2));
    assert_eq!(step(ItemOrder::Previous, Some(0), 3), Some(0));
    assert_eq!(step(ItemOrder::Previous, Some(9), 3), Some(2));
    assert_eq!(step(ItemOrder::First, Some(1), 3), Some(0));
    assert_eq!(step(ItemOrder::Last, None, 3), Some(2));
    assert_eq!(step(ItemOrder::Last, Some(1), 0), Some(1));
}

#[test]
fn marked_items_are_kept_in_order() {
    let mut items = vec!['a', 'b', 'c', 'd'];
    retain(&mut items, &vec![false, true, false, true]);
    assert_eq!(items, vec!['b', 'd']);
}

#[test]
fn erasing_undoes_typing() {
    let mut filter = FilterComponent::new();
    filter.enter_char('a');
    filter.enter_char('\u{e9}');
    assert_eq!((filter.value.as_str(), filter.cursor_pos()), ("a\u{e9}", 2));
    filter.delete_char();
    assert_eq!((filter.value.as_str(), filter.cursor_pos()), ("a", 1));
    filter.clear();
    filter.delete_char();
    assert_eq!((filter.value.as_str(), filter.cursor_pos()), ("", 0));
}

#[test]
fn a_name_holds_only_branch_characters() {
    let mut prompt = CreateWorktreeComponent::new("shanti".to_string(), Backend::Git, false);
    for c in "a b~c:d/e".chars() {
        prompt.handle_action(Action::InsertChar(c));
    }
    assert_eq!(prompt.new_worktree_name, "a-bcd/e");
}

#[test]
fn scrolling_stops_at_the_last_row() {
    let mut help = HelpComponent::new(worktrees_bindings());
    let view = help
        .draw(rect(0, 0, 60, 12), &Theme::tokyo_night())
        .expect("there is room");
    assert_eq!(view.rows.len(), usize::from(help.content));
    help.handle_action(Action::GoLast);
    let last = help.scroll;
    assert_eq!(last, help.content - help.viewport);
    help.handle_action(Action::MoveDown);
    assert_eq!(help.scroll, last);
    help.handle_action(Action::GoFirst);
    help.handle_action(Action::MoveUp);
    assert_eq!(help.scroll, 0);
}

#[test]
fn a_caret_stays_inside_its_area() {
    let area = rect(5, 3, 10, 2);
    assert_eq!(place_cursor(area, 7, 3), Some((7, 3)));
    assert_eq!(place_cursor(area, 99, 99), Some((14, 4)));
    assert_eq!(place_cursor(rect(5, 3, 0, 2), 7, 3), None);
    assert_eq!(place_caret(area, 2, 1, 3), Some((8, 3)));
    assert_eq!(place_caret(area, 2, usize::MAX, 3), Some((14, 3)));
}

#[test]
fn padding_goes_step_by_step() {
    let steps: Vec<u16> = [31, 32, 51, 52, 79, 80].iter().map(|w| gutter(*w)).collect();
    assert_eq!(steps, vec![0, 1, 1, 2, 2, 4]);
}

#[test]
fn words_are_wrapped_and_every_line_takes_a_row() {
    let theme = Theme::tokyo_night();
    let line = |said: &str| Line::styled(said, text(&theme));
    assert_eq!(wrapped_rows(&line(""), 10), 1);
    assert_eq!(wrapped_rows(&line("one two"), 10), 1);
    assert_eq!(wrapped_rows(&line("one two three"), 7), 2);
    assert_eq!(wrapped_rows(&line("one two"), 0), wrapped_rows(&line("one two"), 1));
}

#[test]
fn every_prompt_ends_with_the_way_out() {
    let theme = Theme::tokyo_night();
    let entries = confirm_and_cancel("create", &theme);
    assert_eq!(
        footer(&entries, 80, &theme).text(),
        " [Enter] create [Esc] cancel "
    );
    assert_eq!(footer(&entries, 20, &theme).text(), " [Esc] cancel ");
}

#[test]
fn a_theme_that_cannot_be_saved_is_named() {
    let said = unsaved_text("ansi", "read-only");
    assert!(said.contains("ansi") && said.contains("read-only"), "{said}");
}

#[test]
fn rows_are_listed_by_repository_and_then_by_name() {
    let key = |repo: &str, name: &str| {
        Some(NameRank {
            repo: repo.to_string(),
            name: name.to_string(),
        })
    };
    let rows = arrange(&vec![
        key("b", "x"),
        None,
        key("a", "z"),
        key("a", "y"),
        key("b", "x"),
    ]);
    assert_eq!(rows, vec![3, 2, 0, 4]);
}

#[test]
fn an_age_is_told_in_its_largest_unit() {
    let tip = SpaceTip::new("fix", 1_000);
    assert_eq!(tip.age(900), "now");
    assert_eq!(tip.age(1_059), "now");
    assert_eq!(tip.age(1_060), "1m");
    assert_eq!(tip.age(1_000 + 7_200), "2h");
    assert_eq!(tip.age(1_000 + 3 * 86_400), "3d");
    assert_eq!(tip.subject_or_placeholder(), "fix");
}

fn status_of(path: &str) -> Job {
    Job::SpaceStatus {
        path: path.to_string(),
    }
}

/// Ids count up, a job given up is not wanted, and the others still are.
#[test]
fn giving_a_job_up_leaves_the_others_wanted() {
    let mut work = Background::new();
    work.worker = Some(Worker::with_threads(2));
    let ids: Vec<u64> = (0..3)
        .map(|_| {
            work.submit(status_of("/a"), TrackedJob::Refresh)
                .expect("there is a pool")
                .number
        })
        .collect();
    assert_eq!(ids, vec![0, 1, 2]);

    let running = work.next_job().expect("a job waits");
    work.abandon(running.id);
    assert!(!work.in_flight.contains(running.id));
    assert!(!work.finish(running.id), "a job given up is wanted");

    let next = work.next_job().expect("another waits");
    assert!(work.finish(next.id), "a job that was not given up is not wanted");

    work.abandon_all(Kind::Refresh);
    assert!(work.in_flight.is_empty());
    assert!(work.next_job().is_none());
    // An id is never handed out twice.
    let id = work
        .submit(status_of("/b"), TrackedJob::Refresh)
        .expect("there is a pool");
    assert_eq!(id.number, 3);
}
