//! What the list of spaces says beside its rows: the mode, the news, what it is
//! waiting for, and why it is empty.

use vstd::prelude::*;

use crate::cli::Origin;
use crate::components::modal::{MIN_HEIGHT, MIN_WIDTH};
use crate::components::notify::Notification;
use crate::keymap::InputMode;
use crate::screen::{diff, lines_of, minus, push_line, text_of, Line, Rect};
use crate::text::{char_count, concat, decimal, decimal_of, from_chars, to_chars};
use crate::theme::{self, Style, Theme};

verus! {

/// What the list is waiting for.
#[derive(Debug, Clone, Copy, PartialEq, Eq, Structural)]
pub enum Activity {
    /// Walking the repos dirs; the count is repositories found so far.
    Scanning,
    /// Re-reading known repositories; the count is repositories still out.
    Refreshing,
    /// Talking to remotes; the count is repositories still out.
    Fetching,
    /// Setting up fresh spaces; the count is spaces still out.
    SettingUp,
}

impl Activity {
    /// What is going on.
    #[verifier::allow_in_spec]
    pub fn verb(self) -> &'static str
        returns
            (match self {
                Activity::Scanning => "scanning",
                Activity::Refreshing => "refreshing",
                Activity::Fetching => "fetching",
                Activity::SettingUp => "setting up",
            }),
    {
        match self {
            Activity::Scanning => "scanning",
            Activity::Refreshing => "refreshing",
            Activity::Fetching => "fetching",
            Activity::SettingUp => "setting up",
        }
    }

    /// What the count counts.
    #[verifier::allow_in_spec]
    pub fn noun(self) -> &'static str
        returns
            (match self {
                Activity::Scanning => "repos",
                Activity::Refreshing => "repos left",
                Activity::Fetching => "repos left",
                Activity::SettingUp => "spaces left",
            }),
    {
        match self {
            Activity::Scanning => "repos",
            Activity::Refreshing => "repos left",
            Activity::Fetching => "repos left",
            Activity::SettingUp => "spaces left",
        }
    }
}

/// The picture of the spinner at one tick.
#[verifier::allow_in_spec]
pub fn spinner(frame: usize) -> &'static str
    returns
        (match frame % 10 {
            0usize => "\u{280b}",
            1usize => "\u{2819}",
            2usize => "\u{2839}",
            3usize => "\u{2838}",
            4usize => "\u{283c}",
            5usize => "\u{2834}",
            6usize => "\u{2826}",
            7usize => "\u{2827}",
            8usize => "\u{2807}",
            _ => "\u{280f}",
        }),
{
    match frame % 10 {
        0usize => "\u{280b}",
        1usize => "\u{2819}",
        2usize => "\u{2839}",
        3usize => "\u{2838}",
        4usize => "\u{283c}",
        5usize => "\u{2834}",
        6usize => "\u{2826}",
        7usize => "\u{2827}",
        8usize => "\u{2807}",
        _ => "\u{280f}",
    }
}

// ---------------------------------------------------------------------------
// The status zone
// ---------------------------------------------------------------------------

/// The shortest message worth drawing.
pub const MIN_MESSAGE: usize = 16;

/// A text cut to `budget` characters, an ellipsis standing for what was cut.
pub open spec fn elided(text: Seq<char>, budget: nat) -> Seq<char> {
    if text.len() <= budget {
        text
    } else if budget == 0 {
        Seq::empty()
    } else {
        text.take(budget - 1).push('\u{2026}')
    }
}

/// `text` cut to `budget` characters, an ellipsis standing for what was cut.
pub fn elide(text: &str, budget: usize) -> (out: String)
    ensures
        out@ == elided(text@, budget as nat),
        out@.len() <= budget,
{
    if char_count(text) <= budget {
        return text.to_owned();
    }
    if budget == 0 {
        return String::new();
    }
    let chars = to_chars(text);
    let mut out = from_chars(&chars, 0, budget - 1);
    assert(out@ =~= text@.take(budget - 1));
    out.push('\u{2026}');
    out
}

/// What is said of the mode.
#[verifier::allow_in_spec]
pub fn mode_label(mode: InputMode) -> &'static str
    returns
        (match mode {
            InputMode::Normal => " NORMAL ",
            InputMode::Insert => " INSERT ",
        }),
{
    match mode {
        InputMode::Normal => " NORMAL ",
        InputMode::Insert => " INSERT ",
    }
}

/// The style the mode is said in.
#[verifier::allow_in_spec]
pub fn mode_style(mode: InputMode, theme: &Theme) -> Style
    returns
        (match mode {
            InputMode::Normal => theme::success_text(theme),
            InputMode::Insert => theme::warning_text(theme),
        }),
{
    match mode {
        InputMode::Normal => theme::success_text(theme),
        InputMode::Insert => theme::warning_text(theme),
    }
}

/// The columns a message may take: half the border, less the mode, the divider
/// and the spaces round it.
pub open spec fn message_budget(width: u16) -> int {
    diff(width / 2, 11) as int
}

/// The left zone of the bottom border: the mode always, then the message, if it
/// is there and half the border holds a readable part of it.
pub open spec fn zone(
    mode: InputMode,
    width: u16,
    notice: Option<Notification>,
    theme: Theme,
) -> Seq<(Seq<char>, Style)> {
    let indicator = (mode_label(mode)@, mode_style(mode, &theme));
    match notice {
        Some(n) => if message_budget(width) < MIN_MESSAGE {
            seq![indicator]
        } else {
            seq![
                indicator,
                ("\u{2502} "@, theme::rule(&theme)),
                (
                    elided(n.text@, message_budget(width) as nat) + " "@,
                    n.severity.style(&theme),
                ),
            ]
        },
        None => seq![indicator],
    }
}

/// The left zone of the bottom border, and how many columns it claims.
pub fn status_zone(mode: InputMode, width: u16, notice: Option<&Notification>, theme: &Theme) -> (out:
    (Line, u16))
    ensures
        out.0@ == zone(
            mode,
            width,
            match notice {
                Some(n) => Some(*n),
                None => None,
            },
            *theme,
        ),
        out.1 == text_of(out.0@).len(),
{
    proof {
        lemma_zone_len(mode, width, None, *theme);
    }
    let mut line = Line::styled(mode_label(mode), mode_style(mode, theme));
    let notice = match notice {
        Some(notice) => notice,
        None => {
            return (line, 8);
        },
    };
    proof {
        lemma_zone_len(mode, width, Some(*notice), *theme);
    }
    let budget: usize = minus(width / 2, 11) as usize;
    if budget < MIN_MESSAGE {
        return (line, 8);
    }
    let text = elide(notice.text.as_str(), budget);
    let claimed: u16 = 11 + char_count(text.as_str()) as u16;
    line.push("\u{2502} ", theme::rule(theme));
    let said = concat(text.as_str(), " ");
    line.push(said.as_str(), notice.severity.style(theme));
    assert(line@ =~= zone(mode, width, Some(*notice), *theme));
    (line, claimed)
}

proof fn lemma_zone_len(
    mode: InputMode,
    width: u16,
    notice: Option<Notification>,
    theme: Theme,
)
    ensures
        text_of(zone(mode, width, notice, theme)).len() == (match notice {
            Some(n) => if message_budget(width) < MIN_MESSAGE {
                8
            } else {
                11 + elided(n.text@, message_budget(width) as nat).len()
            },
            None => 8,
        }),
{
    reveal_strlit(" NORMAL ");
    reveal_strlit(" INSERT ");
    reveal_strlit("\u{2502} ");
    reveal_strlit(" ");
    let line = zone(mode, width, notice, theme);
    let one = seq![line[0]];
    assert(one.drop_last() =~= Seq::<(Seq<char>, Style)>::empty());
    assert(text_of(one.drop_last()).len() == 0);
    assert(text_of(one) == text_of(one.drop_last()) + line[0].0);
    assert(text_of(one).len() == 8);
    if line.len() == 3 {
        let two = seq![line[0], line[1]];
        assert(two.drop_last() =~= one);
        assert(line.drop_last() =~= two);
        assert(text_of(two) == text_of(one) + line[1].0);
        assert(text_of(line) == text_of(two) + line[2].0);
    } else {
        assert(line =~= one);
    }
}

/// A message never takes the place of the mode, and the two together never take
/// more than half the border: the keys keep the other half.
pub proof fn law_the_zone_keeps_to_its_half(
    mode: InputMode,
    width: u16,
    notice: Option<Notification>,
    theme: Theme,
)
    requires
        width >= 16,
    ensures
        zone(mode, width, notice, theme)[0] == (mode_label(mode)@, mode_style(mode, &theme)),
        text_of(zone(mode, width, notice, theme)).len() <= width / 2,
{
    lemma_zone_len(mode, width, notice, theme);
}

// ---------------------------------------------------------------------------
// An empty list
// ---------------------------------------------------------------------------

/// Why the list is empty, which decides what is said in place of rows.
#[derive(Debug, PartialEq, Eq)]
pub enum EmptyState {
    /// Repositories are still being found.
    Scanning,
    /// There are rows, and the filter leaves none.
    Filtered,
    /// Nothing has been scanned yet.
    Unknown,
    /// The scan is over and found no repository.
    NoRepositories { roots: Vec<String>, origin: Origin },
    /// There are repositories, and none has a space.
    NoSpaces { repos: usize },
    /// The one repository on show has no space.
    NoSpacesHere,
}

/// A line in the colour of attention.
pub open spec fn headline(text: Seq<char>, theme: Theme) -> Seq<(Seq<char>, Style)> {
    seq![(text, theme::title(&theme))]
}

/// A quiet line.
pub open spec fn detail(text: Seq<char>, theme: Theme) -> Seq<(Seq<char>, Style)> {
    seq![(text, theme::muted(&theme))]
}

/// One quiet line for each directory that was walked.
pub open spec fn root_lines(roots: Seq<String>, theme: Theme) -> Seq<Seq<(Seq<char>, Style)>> {
    roots.map_values(|root: String| detail("  "@ + root@, theme))
}

impl EmptyState {
    /// What the pane says.
    pub open spec fn notice(self, theme: Theme) -> Seq<Seq<(Seq<char>, Style)>> {
        match self {
            EmptyState::Scanning => seq![detail("scanning for repositories\u{2026}"@, theme)],
            EmptyState::Filtered => seq![
                headline("nothing matches the filter"@, theme),
                detail("press / to change it"@, theme),
            ],
            EmptyState::Unknown => seq![detail("no spaces yet"@, theme)],
            EmptyState::NoRepositories { roots, origin } => seq![
                headline("no repositories found"@, theme),
                detail("scanned (from the "@ + origin.name()@ + "):"@, theme),
            ] + (if roots@.len() == 0 {
                seq![detail("  (no repos dir configured)"@, theme)]
            } else {
                root_lines(roots@, theme)
            }),
            EmptyState::NoSpaces { repos } => seq![
                headline("no spaces yet"@, theme),
                detail(
                    decimal_of(repos as nat) + (if repos == 1 {
                        " repository"@
                    } else {
                        " repositories"@
                    }) + ", none with a space"@,
                    theme,
                ),
                detail("press n to create one"@, theme),
            ],
            EmptyState::NoSpacesHere => seq![
                headline("no spaces yet"@, theme),
                detail("press n to create one"@, theme),
            ],
        }
    }

    /// The notice: a headline and what to do next.
    pub fn lines(&self, theme: &Theme) -> (lines: Vec<Line>)
        ensures
            lines_of(lines@) == self.notice(*theme),
    {
        let loud = theme::title(theme);
        let quiet = theme::muted(theme);
        let mut lines: Vec<Line> = Vec::new();
        match self {
            EmptyState::Scanning => {
                push_line(&mut lines, Line::styled("scanning for repositories\u{2026}", quiet));
            },
            EmptyState::Filtered => {
                push_line(&mut lines, Line::styled("nothing matches the filter", loud));
                push_line(&mut lines, Line::styled("press / to change it", quiet));
            },
            EmptyState::Unknown => {
                push_line(&mut lines, Line::styled("no spaces yet", quiet));
            },
            EmptyState::NoRepositories { roots, origin } => {
                push_line(&mut lines, Line::styled("no repositories found", loud));
                let mut text = concat("scanned (from the ", origin.name());
                text.append("):");
                push_line(&mut lines, Line::styled(text.as_str(), quiet));
                if roots.len() == 0 {
                    push_line(&mut lines, Line::styled("  (no repos dir configured)", quiet));
                }
                let ghost head = lines_of(lines@);
                let mut i: usize = 0;
                assert(head + root_lines(roots@, *theme).take(0) =~= head);
                while i < roots.len()
                    invariant
                        i <= roots@.len(),
                        quiet == theme::muted(theme),
                        lines_of(lines@) == head + root_lines(roots@, *theme).take(i as int),
                    decreases roots.len() - i,
                {
                    let text = concat("  ", roots[i].as_str());
                    push_line(&mut lines, Line::styled(text.as_str(), quiet));
                    assert(root_lines(roots@, *theme)[i as int] =~= seq![(text@, quiet)]);
                    assert(lines_of(lines@) =~= head + root_lines(roots@, *theme).take(i + 1));
                    i = i + 1;
                }
            },
            EmptyState::NoSpaces { repos } => {
                push_line(&mut lines, Line::styled("no spaces yet", loud));
                let mut text = decimal(*repos as u64);
                text.append(
                    if *repos == 1 {
                        " repository"
                    } else {
                        " repositories"
                    },
                );
                text.append(", none with a space");
                push_line(&mut lines, Line::styled(text.as_str(), quiet));
                push_line(&mut lines, Line::styled("press n to create one", quiet));
            },
            EmptyState::NoSpacesHere => {
                push_line(&mut lines, Line::styled("no spaces yet", loud));
                push_line(&mut lines, Line::styled("press n to create one", quiet));
            },
        }
        assert(lines_of(lines@) =~= self.notice(*theme));
        lines
    }
}

/// What is said on a terminal below the floor.
pub open spec fn too_small(rect: Rect, theme: Theme) -> Seq<Seq<(Seq<char>, Style)>> {
    seq![
        seq![("Terminal too small"@, theme::warning_text(&theme))],
        detail(
            "Need "@ + decimal_of(MIN_WIDTH as nat) + "x"@ + decimal_of(MIN_HEIGHT as nat),
            theme,
        ),
        detail(
            "Have "@ + decimal_of(rect.width as nat) + "x"@ + decimal_of(rect.height as nat),
            theme,
        ),
    ]
}

/// `Need 40x10` and its like.
fn size_text(word: &str, width: u16, height: u16) -> (text: String)
    ensures
        text@ == word@ + decimal_of(width as nat) + "x"@ + decimal_of(height as nat),
{
    let mut text = concat(word, decimal(width as u64).as_str());
    text.append("x");
    text.append(decimal(height as u64).as_str());
    text
}

/// The one message of a terminal below the floor.
pub fn too_small_lines(rect: Rect, theme: &Theme) -> (lines: Vec<Line>)
    ensures
        lines_of(lines@) == too_small(rect, *theme),
{
    let mut lines: Vec<Line> = Vec::new();
    push_line(&mut lines, Line::styled("Terminal too small", theme::warning_text(theme)));
    let need = size_text("Need ", MIN_WIDTH, MIN_HEIGHT);
    push_line(&mut lines, Line::styled(need.as_str(), theme::muted(theme)));
    let have = size_text("Have ", rect.width, rect.height);
    push_line(&mut lines, Line::styled(have.as_str(), theme::muted(theme)));
    assert(lines_of(lines@) =~= too_small(rect, *theme));
    lines
}

/// A text that is too long keeps its head, and an ellipsis in the last column says
/// that it was cut; one that fits is left alone.
pub proof fn law_a_cut_text_keeps_its_head(text: Seq<char>, budget: nat)
    ensures
        text.len() <= budget ==> elided(text, budget) == text,
        text.len() > budget ==> elided(text, budget).len() == budget,
        text.len() > budget && budget > 0 ==> elided(text, budget).last() == '\u{2026}'
            && elided(text, budget).drop_last() == text.take(budget - 1),
{
    if text.len() > budget && budget > 0 {
        assert(elided(text, budget).drop_last() =~= text.take(budget - 1));
    }
}

/// The mode is always told, and first; a message is told beside it where half the
/// border holds sixteen characters of it besides, as loudly as it was said.
pub proof fn law_the_mode_is_always_told(
    mode: InputMode,
    width: u16,
    notice: Option<Notification>,
    theme: Theme,
)
    ensures
        zone(mode, width, notice, theme).len() > 0,
        zone(mode, width, notice, theme)[0].0 == (if mode is Insert {
            " INSERT "@
        } else {
            " NORMAL "@
        }),
        zone(mode, width, notice, theme).len() > 1 <==> notice is Some && width / 2 - 11 >= 16,
        notice matches Some(n) ==> (width / 2 - 11 >= 16 ==> zone(mode, width, notice, theme)[2] == (
            elided(n.text@, (width / 2 - 11) as nat) + " "@,
            n.severity.style(&theme),
        )),
{
}

/// What an empty pane says, in words: each reason in its own.
pub proof fn law_each_reason_is_told_in_its_own_words(state: EmptyState, theme: Theme)
    ensures
        state is Scanning ==> state.notice(theme)[0][0].0 == "scanning for repositories\u{2026}"@,
        state is Filtered ==> state.notice(theme)[0][0].0 == "nothing matches the filter"@
            && state.notice(theme)[1][0].0 == "press / to change it"@,
        state is Unknown ==> state.notice(theme)[0][0].0 == "no spaces yet"@,
        state is NoSpacesHere ==> state.notice(theme)[0][0].0 == "no spaces yet"@ && state.notice(
            theme,
        )[1][0].0 == "press n to create one"@,
        state matches EmptyState::NoSpaces { repos } ==> {
            &&& state.notice(theme)[0][0].0 == "no spaces yet"@
            &&& repos == 1 ==> state.notice(theme)[1][0].0 == decimal_of(1) + " repository"@
                + ", none with a space"@
            &&& repos != 1 ==> state.notice(theme)[1][0].0 == decimal_of(repos as nat)
                + " repositories"@ + ", none with a space"@
            &&& state.notice(theme)[2][0].0 == "press n to create one"@
        },
        state matches EmptyState::NoRepositories { roots, origin } ==> {
            &&& state.notice(theme)[0][0].0 == "no repositories found"@
            &&& state.notice(theme)[1][0].0 == "scanned (from the "@ + origin.name()@ + "):"@
            &&& roots@.len() == 0 ==> state.notice(theme).len() == 3 && state.notice(theme)[2][0].0
                == "  (no repos dir configured)"@
            &&& roots@.len() > 0 ==> state.notice(theme).len() == 2 + roots@.len()
            &&& forall|i: int|
                0 <= i < roots@.len() ==> (#[trigger] state.notice(theme)[2 + i])[0].0 == "  "@
                    + roots@[i]@
        },
{
}

/// A terminal that is too small is told how large it has to be and how large it is.
pub proof fn law_a_small_terminal_is_told_its_size(rect: Rect, theme: Theme)
    ensures
        too_small(rect, theme).len() == 3,
        too_small(rect, theme)[0][0].0 == "Terminal too small"@,
        too_small(rect, theme)[1][0].0 == "Need "@ + decimal_of(40) + "x"@ + decimal_of(10),
        too_small(rect, theme)[2][0].0 == "Have "@ + decimal_of(rect.width as nat) + "x"@
            + decimal_of(rect.height as nat),
{
}

/// What runs is told by what is done and by what is counted, and the spinner comes
/// round after ten pictures, no two of them alike.
pub proof fn law_what_runs_is_told_apart(activity: Activity, frame: usize)
    ensures
        activity == Activity::Scanning ==> activity.verb()@ == "scanning"@ && activity.noun()@
            == "repos"@,
        activity == Activity::Refreshing ==> activity.verb()@ == "refreshing"@ && activity.noun()@
            == "repos left"@,
        activity == Activity::Fetching ==> activity.verb()@ == "fetching"@ && activity.noun()@
            == "repos left"@,
        activity == Activity::SettingUp ==> activity.verb()@ == "setting up"@ && activity.noun()@
            == "spaces left"@,
        frame <= usize::MAX - 10 ==> spinner((frame + 10) as usize) == spinner(frame),
{
}

} // verus!
