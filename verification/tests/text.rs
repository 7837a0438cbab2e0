use shanti::components::create_worktree::{
    capitalised, is_valid_branch_char, is_valid_branch_name,
};
use shanti::components::modal::{centered, popup_area, Extent};
use shanti::components::picker::picker_areas;
use shanti::components::prompt::{footer, FooterEntry};
use shanti::fuzzy::{search, total_score};
use shanti::screen::Rect;
use shanti::text::{
    decimal, eq_ignore_ascii_case, pad_end, pad_front, parse_number, signed_decimal, split, trim,
    words, NumberError,
};
use shanti::theme::{text, Theme};

fn labels(names: &[&str]) -> Vec<Option<String>> {
    names.iter().map(|name| Some(name.to_string())).collect()
}

fn rect(width: u16, height: u16) -> Rect {
    Rect {
        x: 0,
        y: 0,
        width,
        height,
    }
}

// --- searching -------------------------------------------------------------

#[test]
fn an_empty_query_keeps_everything_in_order() {
    assert_eq!(search("", &labels(&["b", "a"])), vec![0, 1]);
    assert_eq!(search("   ", &labels(&["b", "a"])), vec![0, 1]);
}

#[test]
fn the_closest_label_comes_first() {
    let rows = search("feat", &labels(&["xfeatx", "main", "feat", "xfxexaxt"]));
    assert!(!rows.contains(&1), "a label without the query is listed");
    assert!(!rows.contains(&3), "a scattered match is listed");
    assert_eq!(rows, vec![2, 0]);
}

#[test]
fn every_word_of_a_query_has_to_match() {
    let names = labels(&["shanti fix-scan", "shanti main", "other fix-scan"]);
    assert_eq!(search("shanti scan", &names), vec![0]);
    assert_eq!(search("scan shanti", &names), vec![0]);
}

#[test]
fn letter_case_does_not_matter() {
    assert_eq!(search("feat", &labels(&["Feature"])), vec![0]);
    assert_eq!(search("FEAT", &labels(&["feature"])), vec![0]);
}

#[test]
fn accents_are_typed_or_left_out() {
    // A word without accents finds a label with them, not the other way round.
    assert_eq!(search("cafe", &labels(&["caf\u{e9}", "cafe"])), vec![0, 1]);
    assert_eq!(search("caf\u{e9}", &labels(&["caf\u{e9}", "cafe"])), vec![0]);
}

#[test]
fn a_label_that_the_scorer_reads_two_ways_is_not_handed_to_it() {
    // A long s is lowercase and folds to an s; a final sigma folds to a sigma.
    assert!(search("s\u{e9}", &labels(&["\u{17f}as\u{e9}"])).is_empty());
    assert!(search("\u{3c3}\u{e9}", &labels(&["\u{3c2}a\u{3c3}\u{e9}"])).is_empty());
    let rows = labels(&["\u{17f} s\u{e9}ance", "s s\u{e9}ance"]);
    assert_eq!(search("s\u{e9}ance", &rows), vec![1]);
    // It is where the word starts with another letter, or asks for no accents.
    assert_eq!(search("caf\u{e9}", &labels(&["\u{17f} caf\u{e9}"])), vec![0]);
    let sigmas = labels(&["\u{3c2}\u{3bf}\u{3c2} \u{3c3}\u{3bf}\u{3c6}"]);
    assert_eq!(search("\u{3c3}\u{3bf}\u{3c6}", &sigmas), vec![0]);
    // An ASCII word is scored all the same.
    assert_eq!(search("sa", &labels(&["\u{17f}a"])), vec![0]);
}

#[test]
fn a_word_is_scored_up_to_its_longest() {
    let ascii = "a".repeat(2520);
    assert_eq!(search(&ascii, &labels(&[&ascii])), vec![0]);
    let over = "a".repeat(2521);
    assert!(search(&over, &labels(&[&over])).is_empty());

    let accented = "\u{e9}".repeat(1260);
    assert_eq!(search(&accented, &labels(&[&accented])), vec![0]);
    let over = "\u{e9}".repeat(1261);
    assert!(search(&over, &labels(&[&over])).is_empty());
}

#[test]
fn a_label_out_of_scope_is_never_listed() {
    let rows = vec![None, Some("feature".to_string())];
    assert_eq!(search("f", &rows), vec![1]);
    assert_eq!(search("", &rows), vec![1]);
}

#[test]
fn scores_add_up_and_one_miss_is_a_miss() {
    let two = vec!["a".to_string(), "b".to_string()];
    assert_eq!(total_score(&two, &vec![Some(3), Some(4)]), Some(7));
    assert_eq!(total_score(&two, &vec![Some(3), None]), None);
    // A word of three letters has to match well.
    let long = vec!["abc".to_string()];
    assert_eq!(total_score(&long, &vec![Some(69)]), None);
    assert_eq!(total_score(&long, &vec![Some(70)]), Some(70));
}

// --- branch names ----------------------------------------------------------

#[test]
fn a_word_starts_with_its_capital() {
    assert_eq!(capitalised("worktree"), "Worktree");
    assert_eq!(capitalised("\u{df}"), "SS");
    assert_eq!(capitalised(""), "");
}

#[test]
fn letters_and_digits_of_any_script_make_a_name() {
    assert!(is_valid_branch_char('a'));
    assert!(is_valid_branch_char('\u{e9}'));
    assert!(is_valid_branch_char('7'));
    assert!(!is_valid_branch_char(' '));
    assert!(!is_valid_branch_char('~'));
    assert!(is_valid_branch_name("feature/one-two_3.4"));
    for name in ["", "-a", ".a", "a.", "a/", "a..b", "a@{b"] {
        assert!(!is_valid_branch_name(name), "{name}");
    }
}

// --- the screen ------------------------------------------------------------

#[test]
fn a_popup_is_centred_and_stays_inside() {
    assert_eq!(
        centered(rect(100, 30), 40, 10),
        Rect {
            x: 30,
            y: 10,
            width: 40,
            height: 10
        }
    );
    // What is too large gets the whole frame.
    assert_eq!(centered(rect(20, 5), 40, 10), rect(20, 5));
    let wide = Extent::share(50, 34, 80);
    assert_eq!(
        popup_area(rect(100, 30), wide, Extent::fixed(40)),
        Rect {
            x: 25,
            y: 0,
            width: 50,
            height: 30
        }
    );
    // Below the floor there is no popup at all.
    assert_eq!(popup_area(rect(20, 5), wide, Extent::fixed(10)), rect(0, 0));
}

/// The odd cell stands before a popup, whatever the size of the frame.
#[test]
fn a_popup_is_in_the_middle_of_every_frame() {
    for size in 0..=90 {
        for part in 0..=size {
            assert_eq!(
                centered(rect(size, 90 - size), part, 0),
                Rect {
                    x: (size - part + 1) / 2,
                    y: (90 - size + 1) / 2,
                    width: part,
                    height: 0
                }
            );
            assert_eq!(
                centered(rect(90, size), 7, part),
                Rect {
                    x: 42,
                    y: (size - part + 1) / 2,
                    width: 7,
                    height: part
                }
            );
        }
    }
}

#[test]
fn the_list_of_a_picker_takes_what_the_other_rows_leave() {
    for height in 3..=120 {
        let inner = Rect {
            x: 4,
            y: 2,
            width: 30,
            height,
        };
        let row = |y, height| Rect {
            x: 4,
            y,
            width: 30,
            height,
        };
        assert_eq!(
            picker_areas(inner, true),
            (row(2, 1), row(3, height - 2), Some(row(1 + height, 1)))
        );
        assert_eq!(
            picker_areas(inner, false),
            (row(2, 1), row(3, height - 1), None)
        );
    }
}

#[test]
fn a_footer_leaves_out_what_has_no_room() {
    let theme = Theme::tokyo_night();
    let entry = |key: &'static str, verb: &'static str| FooterEntry {
        key,
        verb,
        style: text(&theme),
    };
    let entries = vec![entry("enter", "open"), entry("d", "delete")];
    let wide = footer(&entries, 80, &theme).text();
    assert!(wide.contains("open") && wide.contains("delete"), "{wide}");
    let narrow = footer(&entries, 14, &theme).text();
    assert_eq!(narrow, " [d] delete ");
}

// --- text ------------------------------------------------------------------

#[test]
fn numbers_are_written_and_read_back() {
    assert_eq!(decimal(0), "0");
    assert_eq!(decimal(u64::MAX), "18446744073709551615");
    assert_eq!(signed_decimal(-12), "-12");
    assert_eq!(signed_decimal(i32::MIN), "-2147483648");
    assert_eq!(parse_number("18446744073709551615"), Ok(u64::MAX));
    assert_eq!(parse_number("+7"), Ok(7));
    assert_eq!(parse_number(""), Err(NumberError::Empty));
    assert_eq!(parse_number("7x"), Err(NumberError::InvalidDigit));
    assert_eq!(
        parse_number("18446744073709551616"),
        Err(NumberError::TooLarge)
    );
}

#[test]
fn text_is_trimmed_split_and_padded() {
    assert_eq!(trim(" \t a b\n"), "a b");
    assert_eq!(words(" a  b "), vec!["a".to_string(), "b".to_string()]);
    assert_eq!(
        split("a//b", '/'),
        vec!["a".to_string(), String::new(), "b".to_string()]
    );
    assert_eq!(pad_end("ab", 4), "ab  ");
    assert_eq!(pad_front("ab", 4), "  ab");
    assert!(eq_ignore_ascii_case("Tokyo-Night", "tokyo-night"));
    assert!(!eq_ignore_ascii_case("a", "ab"));
}
