//! A yes or no question, and what it demands before it takes a yes.

use vstd::prelude::*;

use crate::components::help::{footer_entries, footer_of, HelpEntry, KEYS_SECTION};
use crate::components::modal::{
    cursor_in, gutter, is_countable, place_caret, popup_area, popup_in, Extent,
};
use crate::components::pr_worktree::Flow;
use crate::components::prompt::{footer, footer_line, line_view};
use crate::components::{Action, EventState};
use crate::github::{PrInfo, PrUrl};
use crate::keymap::InputMode;
use crate::screen::{
    diff, elastic, floors, lines_of, minus, plus, push_line, split_rows, start_of_part, sum,
    text_of, Line, Rect, Share,
};
use crate::text::{char_count, concat, same_text, to_chars, from_chars, views, words, words_of};
use crate::theme::{self, Style, Theme};

verus! {

/// The one key that means "destroy it anyway": shifted, and bound nowhere else.
pub const OVERRIDE_KEY: char = 'X';

/// What the dialog demands before it runs its work. Neither guarded form takes
/// Enter, the key that is pressed without reading.
#[derive(Debug, PartialEq, Eq)]
pub enum Gate {
    /// Enter is enough.
    Enter,
    /// The override key must be pressed.
    Override,
    /// The exact phrase must be typed first.
    Phrase { expected: String, typed: String },
}

impl Gate {
    /// Whether Enter runs the work now.
    pub open spec fn opens(self) -> bool {
        match self {
            Gate::Enter => true,
            Gate::Override => false,
            Gate::Phrase { expected, typed } => typed@ == expected@,
        }
    }

    /// Whether Enter runs the work now.
    pub fn is_open(&self) -> (open: bool)
        ensures
            open == self.opens(),
    {
        match self {
            Gate::Enter => true,
            Gate::Override => false,
            Gate::Phrase { expected, typed } => same_text(typed.as_str(), expected.as_str()),
        }
    }

    /// A guarded dialog is typed into.
    #[verifier::allow_in_spec]
    pub fn mode(&self) -> InputMode
        returns
            (match self {
                Gate::Enter => InputMode::Normal,
                _ => InputMode::Insert,
            }),
    {
        match self {
            Gate::Enter => InputMode::Normal,
            _ => InputMode::Insert,
        }
    }
}

/// The work a yes sets off.
#[derive(Debug, PartialEq, Eq)]
pub enum Work {
    /// Delete the selected space.
    DeleteSpace,
    /// Clone the repository of a pull request.
    Clone { url: PrUrl, info: PrInfo, flow: Flow },
}

/// What the dialog made of a key.
#[derive(Debug, PartialEq, Eq)]
pub enum Answer {
    Consumed,
    Ignored,
    Close,
    /// Yes: the work decides where the flow goes next.
    Run(Work),
}

/// A yes or no dialog. Why the choice is dangerous is the caller's to say.
#[derive(Debug, PartialEq, Eq)]
pub struct ConfirmComponent {
    pub title: String,
    pub label: String,
    pub detail: String,
    /// One line for each thing this choice would destroy.
    pub losses: Vec<String>,
    /// Whether there is a way back.
    pub aftermath: Option<String>,
    /// One line for each thing that goes in any case.
    pub removals: Vec<String>,
    /// What is left behind.
    pub retained: Option<String>,
    pub gate: Gate,
    /// The work, until it has been set off.
    pub on_confirm: Option<Work>,
}

/// The dialog as it is drawn.
#[derive(Debug, PartialEq, Eq)]
pub struct ConfirmView {
    pub area: Rect,
    pub border: Style,
    pub surface: Style,
    pub title: Line,
    pub footer: Line,
    /// Wrapped, not cut.
    pub body: Vec<Line>,
    pub body_area: Rect,
    pub gate: Option<Line>,
    pub gate_area: Rect,
    pub cursor: Option<(u16, u16)>,
}

// ---------------------------------------------------------------------------
// Wrapping
// ---------------------------------------------------------------------------

/// Rows and the columns used of the last one, after a word too long for a row
/// has taken rows of its own.
pub open spec fn spilled(rows: u16, used: nat, width: nat) -> (u16, nat)
    decreases used,
{
    if width > 0 && used > width {
        spilled(sum(rows, 1), (used - width) as nat, width)
    } else {
        (rows, used)
    }
}

/// Rows and the columns used of the last one, after one more word.
pub open spec fn with_word(at: (u16, nat), len: nat, width: nat) -> (u16, nat) {
    let needed = if at.1 == 0 {
        len
    } else {
        at.1 + 1 + len
    };
    if needed > width && at.1 > 0 {
        spilled(sum(at.0, 1), len, width)
    } else {
        spilled(at.0, needed, width)
    }
}

/// Rows and the columns used of the last one, after all words.
pub open spec fn with_words(words: Seq<Seq<char>>, width: nat) -> (u16, nat)
    decreases words.len(),
{
    if words.len() == 0 {
        (1, 0)
    } else {
        with_word(with_words(words.drop_last(), width), words.last().len(), width)
    }
}

/// The rows a line takes once its words are wrapped to `width`.
pub open spec fn rows_taken(line: Seq<(Seq<char>, Style)>, width: u16) -> u16 {
    with_words(
        words_of(text_of(line)),
        if width == 0 {
            1
        } else {
            width as nat
        },
    ).0
}

/// The rows `line` takes once its words are wrapped to `width`.
pub fn wrapped_rows(line: &Line, width: u16) -> (rows: u16)
    ensures
        rows == rows_taken(line@, width),
{
    let width: u128 = if width == 0 {
        1
    } else {
        width as u128
    };
    let text = line.text();
    let words = words(text.as_str());
    let ghost all = views(words@);
    let mut rows: u16 = 1;
    let mut used: u128 = 0;
    let mut i: usize = 0;
    assert(all.take(0) =~= Seq::<Seq<char>>::empty());
    while i < words.len()
        invariant
            all == views(words@),
            1 <= width <= 65535,
            used <= width,
            i <= words@.len(),
            (rows, used as nat) == with_words(all.take(i as int), width as nat),
        decreases words.len() - i,
    {
        let ghost before = (rows, used as nat);
        assert(all.take(i + 1).drop_last() =~= all.take(i as int));
        assert(all.take(i + 1).last() == words@[i as int]@);
        let n: usize = char_count(words[i].as_str());
        let len: u128 = n as u128;
        let needed: u128 = if used == 0 {
            len
        } else {
            used + 1 + len
        };
        if needed > width && used > 0 {
            rows = plus(rows, 1);
            used = len;
        } else {
            used = needed;
        }
        let ghost placed = spilled(rows, used as nat, width as nat);
        assert(with_word(before, len as nat, width as nat) == placed);
        while used > width
            invariant
                1 <= width <= 65535,
                spilled(rows, used as nat, width as nat) == placed,
            decreases used,
        {
            rows = plus(rows, 1);
            used = used - width;
        }
        i = i + 1;
    }
    assert(all.take(all.len() as int) =~= all);
    rows
}

/// The rows a list of lines takes once wrapped.
pub open spec fn all_rows(lines: Seq<Seq<(Seq<char>, Style)>>, width: u16) -> u16
    decreases lines.len(),
{
    if lines.len() == 0 {
        0
    } else {
        sum(all_rows(lines.drop_last(), width), rows_taken(lines.last(), width))
    }
}

// ---------------------------------------------------------------------------
// The dialog
// ---------------------------------------------------------------------------

/// A bulleted line for each entry.
pub open spec fn bullets(entries: Seq<String>, bullet: Style, style: Style) -> Seq<
    Seq<(Seq<char>, Style)>,
> {
    entries.map_values(|entry: String| seq![("  \u{2022} "@, bullet), (entry@, style)])
}

fn push_bullets(lines: &mut Vec<Line>, entries: &Vec<String>, bullet: Style, style: Style)
    ensures
        lines_of(final(lines)@) == lines_of(old(lines)@) + bullets(entries@, bullet, style),
{
    let ghost before = lines_of(lines@);
    let ghost wanted = bullets(entries@, bullet, style);
    let mut i: usize = 0;
    assert(before + wanted.take(0) =~= before);
    while i < entries.len()
        invariant
            i <= entries@.len(),
            wanted == bullets(entries@, bullet, style),
            lines_of(lines@) == before + wanted.take(i as int),
        decreases entries.len() - i,
    {
        let mut line = Line::empty();
        line.push("  \u{2022} ", bullet);
        line.push(entries[i].as_str(), style);
        assert(line@ =~= wanted[i as int]);
        push_line(lines, line);
        assert(lines_of(lines@) =~= before + wanted.take(i + 1));
        i = i + 1;
    }
    assert(wanted.take(i as int) =~= wanted);
}

/// The style of what the question is about.
#[verifier::allow_in_spec]
pub fn subject_style(theme: &Theme) -> Style
    returns
        (Style {
            fg: Some(theme::danger(theme)),
            bg: Some(theme::destructive_surface(theme)),
            bold: true,
            italic: false,
        }),
{
    Style {
        fg: Some(theme::danger(theme)),
        bg: Some(theme::destructive_surface(theme)),
        bold: true,
        italic: false,
    }
}

/// The style of the last warning.
#[verifier::allow_in_spec]
pub fn aftermath_style(theme: &Theme) -> Style
    returns
        (Style { fg: Some(theme::destructive(theme)), bg: None, bold: true, italic: false }),
{
    Style { fg: Some(theme::destructive(theme)), bg: None, bold: true, italic: false }
}

/// The rows of the dialog: padding, the body, the guard.
pub open spec fn confirm_shares() -> Seq<Share> {
    seq![Share::Length(1), Share::AtLeast(0), Share::Length(1)]
}

impl ConfirmComponent {
    /// A question that Enter answers.
    pub fn new(title: String, label: String, detail: String, on_confirm: Work) -> (dialog:
        ConfirmComponent)
        ensures
            dialog.title == title,
            dialog.label == label,
            dialog.detail == detail,
            dialog.losses@ == Seq::<String>::empty(),
            dialog.aftermath is None,
            dialog.removals@ == Seq::<String>::empty(),
            dialog.retained is None,
            dialog.gate is Enter,
            dialog.on_confirm == Some(on_confirm),
    {
        ConfirmComponent {
            title,
            label,
            detail,
            losses: Vec::new(),
            aftermath: None,
            removals: Vec::new(),
            retained: None,
            gate: Gate::Enter,
            on_confirm: Some(on_confirm),
        }
    }

    /// Demands the override key in place of Enter.
    pub fn require_override(self) -> (dialog: ConfirmComponent)
        ensures
            dialog == (ConfirmComponent { gate: Gate::Override, ..self }),
    {
        ConfirmComponent { gate: Gate::Override, ..self }
    }

    /// Demands that `expected` be typed out before Enter does anything.
    pub fn require_phrase(self, expected: String) -> (dialog: ConfirmComponent)
        ensures
            dialog == (ConfirmComponent { gate: dialog.gate, ..self }),
            dialog.gate matches Gate::Phrase { expected: phrase, typed } && phrase == expected
                && typed@ == Seq::<char>::empty(),
    {
        ConfirmComponent { gate: Gate::Phrase { expected, typed: String::new() }, ..self }
    }

    /// Says what a yes would destroy, and whether that could be recovered.
    pub fn at_risk(self, losses: Vec<String>, aftermath: Option<String>) -> (dialog:
        ConfirmComponent)
        ensures
            dialog == (ConfirmComponent { losses, aftermath, ..self }),
    {
        ConfirmComponent { losses, aftermath, ..self }
    }

    /// Says what a yes removes in any case, and what it spares.
    pub fn removing(self, removals: Vec<String>, retained: Option<String>) -> (dialog:
        ConfirmComponent)
        ensures
            dialog == (ConfirmComponent { removals, retained, ..self }),
    {
        ConfirmComponent { removals, retained, ..self }
    }

    /// What would be destroyed.
    pub open spec fn loss_lines(self, theme: Theme) -> Seq<Seq<(Seq<char>, Style)>> {
        if self.losses@.len() == 0 {
            Seq::empty()
        } else {
            seq![Seq::empty(), seq![("This would destroy:"@, theme::muted(&theme))]] + bullets(
                self.losses@,
                theme::muted(&theme),
                theme::warning_text(&theme),
            )
        }
    }

    /// What goes in any case, and what stays.
    pub open spec fn removal_lines(self, theme: Theme) -> Seq<Seq<(Seq<char>, Style)>> {
        if self.removals@.len() == 0 {
            Seq::empty()
        } else {
            seq![Seq::empty(), seq![("Deleting also removes:"@, theme::muted(&theme))]] + bullets(
                self.removals@,
                theme::muted(&theme),
                theme::secondary(&theme),
            ) + (match self.retained {
                Some(text) => seq![seq![(text@, theme::muted(&theme))]],
                None => Seq::empty(),
            })
        }
    }

    /// Whether there is a way back.
    pub open spec fn aftermath_lines(self, theme: Theme) -> Seq<Seq<(Seq<char>, Style)>> {
        match self.aftermath {
            Some(text) => seq![Seq::empty(), seq![(text@, aftermath_style(&theme))]],
            None => Seq::empty(),
        }
    }

    /// The body, top to bottom.
    pub open spec fn body_lines(self, theme: Theme) -> Seq<Seq<(Seq<char>, Style)>> {
        seq![
            seq![(self.label@, theme::text(&theme).bold())],
            seq![(" "@ + self.detail@ + " "@, subject_style(&theme))],
        ] + self.loss_lines(theme) + self.removal_lines(theme) + self.aftermath_lines(theme) + (
        if self.gate is Enter {
            Seq::empty()
        } else {
            seq![Seq::empty()]
        })
    }

    /// The body, top to bottom: built once for drawing and for measuring.
    pub fn body(&self, theme: &Theme) -> (lines: Vec<Line>)
        ensures
            lines_of(lines@) == self.body_lines(*theme),
    {
        let muted = theme::muted(theme);
        let mut lines: Vec<Line> = Vec::new();
        push_line(&mut lines, Line::styled(self.label.as_str(), theme::text(theme).bold()));
        let mut subject = concat(" ", self.detail.as_str());
        subject.append(" ");
        push_line(&mut lines, Line::styled(subject.as_str(), subject_style(theme)));
        let ghost head = lines_of(lines@);
        assert(head =~= seq![
            seq![(self.label@, theme::text(theme).bold())],
            seq![(" "@ + self.detail@ + " "@, subject_style(theme))],
        ]);

        if self.losses.len() > 0 {
            push_line(&mut lines, Line::empty());
            push_line(&mut lines, Line::styled("This would destroy:", muted));
            push_bullets(&mut lines, &self.losses, muted, theme::warning_text(theme));
        }
        assert(lines_of(lines@) =~= head + self.loss_lines(*theme));
        let ghost upto_losses = lines_of(lines@);

        if self.removals.len() > 0 {
            push_line(&mut lines, Line::empty());
            push_line(&mut lines, Line::styled("Deleting also removes:", muted));
            push_bullets(&mut lines, &self.removals, muted, theme::secondary(theme));
            if let Some(retained) = &self.retained {
                push_line(&mut lines, Line::styled(retained.as_str(), muted));
            }
        }
        assert(lines_of(lines@) =~= upto_losses + self.removal_lines(*theme));
        let ghost upto_removals = lines_of(lines@);

        if let Some(aftermath) = &self.aftermath {
            push_line(&mut lines, Line::empty());
            push_line(&mut lines, Line::styled(aftermath.as_str(), aftermath_style(theme)));
        }
        assert(lines_of(lines@) =~= upto_removals + self.aftermath_lines(*theme));

        if !matches!(self.gate, Gate::Enter) {
            push_line(&mut lines, Line::empty());
        }
        assert(lines_of(lines@) =~= self.body_lines(*theme));
        lines
    }

    /// How to get past the guard.
    pub open spec fn gate_runs(self, theme: Theme) -> Option<Seq<(Seq<char>, Style)>> {
        match self.gate {
            Gate::Enter => None,
            Gate::Override => Some(
                seq![
                    ("Press X "@, theme::key_destructive(&theme)),
                    ("to delete it anyway."@, theme::secondary(&theme)),
                ],
            ),
            Gate::Phrase { expected, typed } => Some(
                seq![
                    ("Type "@ + expected@ + " to confirm: "@, theme::secondary(&theme)),
                    (typed@, theme::text(&theme).bold()),
                ],
            ),
        }
    }

    /// How far into the guard's row the caret stands, if there is one.
    pub open spec fn caret(self) -> Option<int> {
        match self.gate {
            Gate::Phrase { expected, typed } => Some(
                ("Type "@ + expected@ + " to confirm: "@).len() + typed@.len() as int,
            ),
            _ => None,
        }
    }

    /// How to get past the guard, and how much of the row stands before the
    /// caret, where the guard is typed into.
    fn gate_line(&self, theme: &Theme) -> (out: (Option<Line>, Option<String>))
        ensures
            line_view(out.0) == self.gate_runs(*theme),
            match (out.1, self.caret()) {
                (Some(before), Some(n)) => before@.len() == n,
                (None, None) => true,
                _ => false,
            },
    {
        match &self.gate {
            Gate::Enter => (None, None),
            Gate::Override => {
                let mut line = Line::empty();
                line.push("Press X ", theme::key_destructive(theme));
                line.push("to delete it anyway.", theme::secondary(theme));
                assert(line@ =~= self.gate_runs(*theme)->0);
                (Some(line), None)
            },
            Gate::Phrase { expected, typed } => {
                let mut prompt = concat("Type ", expected.as_str());
                prompt.append(" to confirm: ");
                let mut line = Line::empty();
                line.push(prompt.as_str(), theme::secondary(theme));
                line.push(typed.as_str(), theme::text(theme).bold());
                assert(line@ =~= self.gate_runs(*theme)->0);
                (Some(line), Some(concat(prompt.as_str(), typed.as_str())))
            },
        }
    }

    /// How tall the popup is at `content_width` columns: two borders, a row of
    /// padding, the body, and the guard's row.
    pub open spec fn wanted_height(self, content_width: u16, theme: Theme) -> u16 {
        sum(all_rows(self.body_lines(theme), content_width), 4)
    }

    fn height(&self, content_width: u16, theme: &Theme) -> (height: u16)
        ensures
            height == self.wanted_height(content_width, *theme),
    {
        let body = self.body(theme);
        let ghost all = lines_of(body@);
        let mut rows: u16 = 0;
        let mut i: usize = 0;
        assert(all.take(0) =~= Seq::<Seq<(Seq<char>, Style)>>::empty());
        while i < body.len()
            invariant
                all == lines_of(body@),
                i <= body@.len(),
                rows == all_rows(all.take(i as int), content_width),
            decreases body.len() - i,
        {
            assert(all.take(i + 1).drop_last() =~= all.take(i as int));
            assert(all.take(i + 1).last() == body@[i as int]@);
            rows = plus(rows, wrapped_rows(&body[i], content_width));
            i = i + 1;
        }
        assert(all.take(all.len() as int) =~= all);
        plus(rows, 4)
    }

    /// The height the dialog would like in a frame, measured at the width its body
    /// will have.
    pub open spec fn extent_in(self, full: Rect, theme: Theme) -> Extent {
        let inner = diff(Extent::share(60, 34, 100).size(full.width), 2);
        Extent::fixed(self.wanted_height(diff(inner, (2 * gutter(inner)) as u16), theme))
    }

    /// Where the dialog sits inside the frame: the height is measured at the
    /// width the body will have.
    pub fn area(&self, full: Rect, theme: &Theme) -> (area: Rect)
        requires
            is_countable(full),
        ensures
            area == popup_in(full, Extent::share(60, 34, 100), self.extent_in(full, *theme)),
    {
        let width = Extent::share(60, 34, 100);
        let inner: u16 = minus(width.resolve(full.width), 2);
        let content: u16 = minus(inner, 2 * gutter(inner));
        popup_area(full, width, Extent::fixed(self.height(content, theme)))
    }

    /// Whether `view` is this dialog as it is drawn into `area`.
    pub open spec fn is_drawn(self, area: Rect, theme: &Theme, view: Option<ConfirmView>) -> bool {
        &&& view is None <==> area.is_empty()
        &&& view matches Some(v) ==> {
            let inner = area.spec_within_border();
            let pad = gutter(inner.width);
            &&& v.area == area
            &&& v.border == theme::border_destructive(theme)
            &&& v.surface == theme::popup_surface(theme)
            &&& v.title@ == seq![
                (" \u{26a0} "@, theme::key_destructive(theme)),
                (self.title@, theme::title(theme)),
                (" "@, Style::plain()),
            ]
            &&& v.footer@ == footer_line(
                footer_of(self.keys(), KEYS_SECTION@, *theme),
                area.width,
                *theme,
            )
            &&& lines_of(v.body@) == self.body_lines(*theme)
            &&& line_view(v.gate) == self.gate_runs(*theme)
            &&& v.cursor == (match self.caret() {
                Some(n) => cursor_in(v.gate_area, v.gate_area.x + n, v.gate_area.y as int),
                None => None,
            })
            &&& inner.holds(v.body_area) && inner.holds(v.gate_area)
            &&& inner.height >= 2 ==> {
                let x = (inner.x + pad) as u16;
                let width = (inner.width - 2 * pad) as u16;
                &&& v.body_area == (Rect {
                    x,
                    y: (inner.y + 1) as u16,
                    width,
                    height: (inner.height - 2) as u16,
                })
                &&& v.gate_area == (Rect {
                    x,
                    y: (inner.y + inner.height - 1) as u16,
                    width,
                    height: 1,
                })
            }
        }
    }

    /// The dialog as it is drawn into `area`, or nothing where there is no room.
    pub fn draw(&self, area: Rect, theme: &Theme) -> (view: Option<ConfirmView>)
        requires
            is_countable(area),
        ensures
            self.is_drawn(area, theme, view),
    {
        if area.is_empty() {
            return None;
        }
        let mut title = Line::empty();
        title.push(" \u{26a0} ", theme::key_destructive(theme));
        title.push(self.title.as_str(), theme::title(theme));
        title.push(" ", Style::plain());
        assert(title@ =~= seq![
            (" \u{26a0} "@, theme::key_destructive(theme)),
            (self.title@, theme::title(theme)),
            (" "@, Style::plain()),
        ]);
        let bindings = self.help();
        let entries = footer_entries(&bindings, KEYS_SECTION, theme);
        let inner = area.within_border();
        let mut shares: Vec<Share> = Vec::new();
        shares.push(Share::Length(1));
        shares.push(Share::AtLeast(0));
        shares.push(Share::Length(1));
        proof {
            assert(shares@ =~= confirm_shares());
            lemma_confirm_rows(inner.height as nat);
        }
        let rows = split_rows(inner, gutter(inner.width), &shares);
        let body_area = rows[1];
        let gate_area = rows[2];
        let (gate, before) = self.gate_line(theme);
        let cursor = match before {
            Some(text) => place_caret(gate_area, 0, char_count(text.as_str()), gate_area.y),
            None => None,
        };
        Some(
            ConfirmView {
                area,
                border: theme::border_destructive(theme),
                surface: theme::popup_surface(theme),
                title,
                footer: footer(&entries, area.width, theme),
                body: self.body(theme),
                body_area,
                gate,
                gate_area,
                cursor,
            },
        )
    }

    /// What a key does: what is said of it, and the guard and the work then.
    pub open spec fn after(self, action: Action) -> Answer {
        match action {
            Action::Select => if self.gate.opens() {
                self.yes()
            } else {
                Answer::Consumed
            },
            Action::ClosePopup | Action::ExitInsertMode => Answer::Close,
            Action::InsertChar(c) => if self.gate is Override && c == OVERRIDE_KEY {
                self.yes()
            } else {
                Answer::Consumed
            },
            Action::DeleteChar => Answer::Consumed,
            _ => Answer::Ignored,
        }
    }

    /// What a yes does: the work is set off once.
    pub open spec fn yes(self) -> Answer {
        match self.on_confirm {
            Some(work) => Answer::Run(work),
            None => Answer::Close,
        }
    }

    /// What has been typed after a key.
    pub open spec fn typed_after(self, action: Action) -> Option<Seq<char>> {
        match self.gate {
            Gate::Phrase { expected, typed } => Some(
                match action {
                    Action::InsertChar(c) => typed@.push(c),
                    Action::DeleteChar => if typed@.len() == 0 {
                        typed@
                    } else {
                        typed@.drop_last()
                    },
                    _ => typed@,
                },
            ),
            _ => None,
        }
    }

    /// What has been typed.
    pub open spec fn typed(self) -> Option<Seq<char>> {
        match self.gate {
            Gate::Phrase { expected, typed } => Some(typed@),
            _ => None,
        }
    }

    /// Whether `next` is this dialog after a key: what was typed has changed, and
    /// the work has been handed over if it was set off.
    pub open spec fn answered(self, action: Action, next: ConfirmComponent) -> bool {
        &&& next.on_confirm == (if self.after(action) is Run {
            None
        } else {
            self.on_confirm
        })
        &&& next.typed() == self.typed_after(action)
        &&& match (self.gate, next.gate) {
            (Gate::Enter, Gate::Enter) => true,
            (Gate::Override, Gate::Override) => true,
            (Gate::Phrase { expected: was, typed: _ }, Gate::Phrase { expected: is, typed: _ }) =>
                was == is,
            _ => false,
        }
        &&& next == (ConfirmComponent { gate: next.gate, on_confirm: next.on_confirm, ..self })
    }

    /// There is nothing in the dialog to move in.
    pub fn handle_action(&mut self, action: Action) -> (state: EventState)
        ensures
            state == EventState::NotConsumed,
            *final(self) == *old(self),
    {
        EventState::NotConsumed
    }

    /// Acts on a key. A guarded dialog swallows stray typing.
    pub fn handle(&mut self, action: Action) -> (answer: Answer)
        ensures
            answer == old(self).after(action),
            old(self).answered(action, *final(self)),
    {
        match action {
            Action::Select => if self.gate.is_open() {
                self.confirm()
            } else {
                Answer::Consumed
            },
            Action::ClosePopup | Action::ExitInsertMode => Answer::Close,
            Action::InsertChar(c) => {
                if matches!(self.gate, Gate::Override) && c == OVERRIDE_KEY {
                    return self.confirm();
                }
                if let Gate::Phrase { expected, typed } = &self.gate {
                    let mut longer = typed.clone();
                    longer.push(c);
                    self.gate = Gate::Phrase { expected: expected.clone(), typed: longer };
                }
                Answer::Consumed
            },
            Action::DeleteChar => {
                if let Gate::Phrase { expected, typed } = &self.gate {
                    let chars = to_chars(typed.as_str());
                    if chars.len() > 0 {
                        let shorter = from_chars(&chars, 0, chars.len() - 1);
                        assert(shorter@ =~= typed@.drop_last());
                        self.gate = Gate::Phrase { expected: expected.clone(), typed: shorter };
                    }
                }
                Answer::Consumed
            },
            _ => Answer::Ignored,
        }
    }

    fn confirm(&mut self) -> (answer: Answer)
        ensures
            answer == old(self).yes(),
            *final(self) == (ConfirmComponent { on_confirm: None, ..*old(self) }),
    {
        match self.on_confirm.take() {
            Some(work) => Answer::Run(work),
            None => Answer::Close,
        }
    }

    /// The input mode while the dialog is up.
    #[verifier::allow_in_spec]
    pub fn mode(&self) -> InputMode
        returns
            self.gate.mode(),
    {
        self.gate.mode()
    }

    /// The key that means yes.
    pub open spec fn yes_key(self) -> HelpEntry {
        match self.gate {
            Gate::Enter => HelpEntry::bind("Enter", "Confirm").hint("Enter", "confirm"),
            Gate::Override => HelpEntry::bind("X", "Delete anyway").hint("X", "delete anyway"),
            Gate::Phrase { expected, typed } => HelpEntry::bind(
                "Enter",
                "Confirm, once the name is typed",
            ).hint("Enter", "once typed"),
        }
    }

    /// The keys of the dialog.
    pub open spec fn keys(self) -> Seq<HelpEntry> {
        seq![
            HelpEntry::Section(KEYS_SECTION),
            self.yes_key().destructive(),
            HelpEntry::bind("F1", "Show this help").hint("F1", "help").aside(),
            HelpEntry::bind("Esc", "Cancel").hint("Esc", "cancel").safe().essential(),
            HelpEntry::bind("Ctrl+C", "Quit"),
        ]
    }

    /// The keys of the dialog.
    pub fn help(&self) -> (entries: Vec<HelpEntry>)
        ensures
            entries@ == self.keys(),
    {
        let yes = match &self.gate {
            Gate::Enter => HelpEntry::bind("Enter", "Confirm").hint("Enter", "confirm"),
            Gate::Override => HelpEntry::bind("X", "Delete anyway").hint("X", "delete anyway"),
            Gate::Phrase { .. } => HelpEntry::bind(
                "Enter",
                "Confirm, once the name is typed",
            ).hint("Enter", "once typed"),
        };
        let mut entries: Vec<HelpEntry> = Vec::new();
        entries.push(HelpEntry::Section(KEYS_SECTION));
        entries.push(yes.destructive());
        entries.push(HelpEntry::bind("F1", "Show this help").hint("F1", "help").aside());
        entries.push(HelpEntry::bind("Esc", "Cancel").hint("Esc", "cancel").safe().essential());
        entries.push(HelpEntry::bind("Ctrl+C", "Quit"));
        assert(entries@ =~= self.keys());
        entries
    }
}

proof fn lemma_confirm_rows(room: nat)
    ensures
        elastic(confirm_shares()) == 1,
        floors(confirm_shares()) == 2,
        start_of_part(confirm_shares(), room, 1) == 1,
        start_of_part(confirm_shares(), room, 2) == room - 1,
{
    reveal_with_fuel(floors, 4);
    reveal_with_fuel(elastic, 4);
    reveal_with_fuel(start_of_part, 4);
    let s = confirm_shares();
    assert(s.drop_last() =~= seq![Share::Length(1), Share::AtLeast(0)]);
    assert(s.drop_last().drop_last() =~= seq![Share::Length(1)]);
    assert(s.drop_last().drop_last().drop_last() =~= Seq::<Share>::empty());
}

// ---------------------------------------------------------------------------
// Laws
// ---------------------------------------------------------------------------

/// A guarded dialog is not answered by reflex: Enter does nothing until the
/// phrase stands there letter for letter, and never answers where the override
/// key is asked for.
pub proof fn law_enter_does_not_open_a_gate(dialog: ConfirmComponent)
    ensures
        dialog.gate is Override ==> dialog.after(Action::Select) is Consumed,
        dialog.gate matches Gate::Phrase { expected, typed } && typed@ != expected@ ==> dialog.after(
            Action::Select,
        ) is Consumed,
        forall|action: Action|
            dialog.gate is Phrase && (#[trigger] dialog.after(action)) is Run ==> action is Select,
{
}

/// The work is set off by exactly one key: Enter where that is enough or where the
/// phrase stands there letter for letter, and the override key where that is asked
/// for. To cancel never sets it off.
pub proof fn law_a_yes_sets_off_the_work(dialog: ConfirmComponent, action: Action)
    ensures
        dialog.after(action) is Run <==> dialog.on_confirm is Some && match dialog.gate {
            Gate::Enter => action is Select,
            Gate::Override => action == Action::InsertChar('X'),
            Gate::Phrase { expected, typed } => action is Select && typed@ == expected@,
        },
        dialog.after(action) matches Answer::Run(work) ==> dialog.on_confirm == Some(work),
        action is ClosePopup || action is ExitInsertMode ==> dialog.after(action) is Close,
        dialog.gate is Phrase && (action is InsertChar || action is DeleteChar) ==> dialog.after(
            action,
        ) is Consumed,
{
}

/// What is typed into a guarded dialog is kept letter by letter, and what is erased
/// is the last letter.
pub proof fn law_a_phrase_is_typed_letter_by_letter(
    dialog: ConfirmComponent,
    c: char,
    longer: ConfirmComponent,
    back: ConfirmComponent,
)
    requires
        dialog.gate is Phrase,
        dialog.answered(Action::InsertChar(c), longer),
        longer.answered(Action::DeleteChar, back),
    ensures
        longer.gate matches Gate::Phrase { expected, typed } && (dialog.gate matches Gate::Phrase {
            expected: was,
            typed: before,
        } && expected == was && typed@ == before@ + seq![c]),
        back.typed() == dialog.typed(),
        back.on_confirm == dialog.on_confirm,
{
    let before = dialog.typed()->0;
    assert(before.push(c).drop_last() =~= before);
    assert(before.push(c) =~= before + seq![c]);
}

/// Work is set off at most once, and only by a yes.
pub proof fn law_work_runs_once(
    dialog: ConfirmComponent,
    action: Action,
    next: ConfirmComponent,
    later: Action,
)
    requires
        dialog.after(action) is Run,
        dialog.answered(action, next),
    ensures
        dialog.on_confirm is Some,
        action is Select ==> dialog.gate.opens(),
        next.on_confirm is None,
        !(next.after(later) is Run),
{
}

/// Every line takes at least one row, so nothing that is said is left without
/// room.
pub proof fn law_a_line_takes_a_row(line: Seq<(Seq<char>, Style)>, width: u16)
    ensures
        rows_taken(line, width) >= 1,
{
    lemma_rows_grow(
        words_of(text_of(line)),
        if width == 0 {
            1
        } else {
            width as nat
        },
    );
}

proof fn lemma_rows_grow(words: Seq<Seq<char>>, width: nat)
    ensures
        with_words(words, width).0 >= 1,
    decreases words.len(),
{
    if words.len() > 0 {
        lemma_rows_grow(words.drop_last(), width);
        let at = with_words(words.drop_last(), width);
        let len = words.last().len();
        lemma_spilled(sum(at.0, 1), len, width);
        lemma_spilled(
            at.0,
            if at.1 == 0 {
                len
            } else {
                at.1 + 1 + len
            },
            width,
        );
    }
}

proof fn lemma_spilled(rows: u16, used: nat, width: nat)
    ensures
        spilled(rows, used, width).0 >= rows,
    decreases used,
{
    if width > 0 && used > width {
        lemma_spilled(sum(rows, 1), (used - width) as nat, width);
    }
}

/// The dialog says what it asks and of what, then everything that would be lost,
/// then everything that goes in any case and what stays, and then whether there is a
/// way back.
pub proof fn law_a_dialog_says_all_that_goes(dialog: ConfirmComponent, theme: Theme)
    ensures
        dialog.body_lines(theme)[0] == seq![(dialog.label@, theme::text(&theme).bold())],
        dialog.body_lines(theme)[1][0].0 == " "@ + dialog.detail@ + " "@,
        dialog.losses@.len() == 0 ==> dialog.loss_lines(theme).len() == 0,
        dialog.losses@.len() > 0 ==> dialog.loss_lines(theme).len() == 2 + dialog.losses@.len()
            && dialog.loss_lines(theme)[1][0].0 == "This would destroy:"@,
        forall|i: int|
            0 <= i < dialog.losses@.len() ==> (#[trigger] dialog.loss_lines(theme)[2 + i])[1].0
                == dialog.losses@[i]@,
        dialog.removals@.len() == 0 ==> dialog.removal_lines(theme).len() == 0,
        dialog.removals@.len() > 0 ==> dialog.removal_lines(theme)[1][0].0
            == "Deleting also removes:"@,
        forall|i: int|
            0 <= i < dialog.removals@.len() ==> (#[trigger] dialog.removal_lines(theme)[2
                + i])[1].0 == dialog.removals@[i]@,
        dialog.removals@.len() > 0 ==> (dialog.retained matches Some(text)
            ==> dialog.removal_lines(theme).last()[0].0 == text@),
        dialog.aftermath matches Some(text) ==> dialog.aftermath_lines(theme).len() == 2
            && dialog.aftermath_lines(theme)[1][0].0 == text@,
        dialog.aftermath is None ==> dialog.aftermath_lines(theme).len() == 0,
        dialog.body_lines(theme).len() == 2 + dialog.loss_lines(theme).len()
            + dialog.removal_lines(theme).len() + dialog.aftermath_lines(theme).len() + (
        if dialog.gate is Enter {
            0int
        } else {
            1
        }),
{
}

/// The guard says how to get past it: the key to press, or the phrase to type and
/// what has been typed of it.
pub proof fn law_the_guard_says_how_to_get_past_it(dialog: ConfirmComponent, theme: Theme)
    ensures
        dialog.gate is Enter <==> dialog.gate_runs(theme) is None,
        dialog.gate is Override ==> (dialog.gate_runs(theme)->0)[0].0 == "Press X "@ && (
        dialog.gate_runs(theme)->0)[1].0 == "to delete it anyway."@,
        dialog.gate matches Gate::Phrase { expected, typed } ==> {
            &&& (dialog.gate_runs(theme)->0)[0].0 == "Type "@ + expected@ + " to confirm: "@
            &&& (dialog.gate_runs(theme)->0)[1].0 == typed@
        },
        dialog.gate is Enter ==> dialog.mode() == InputMode::Normal,
        !(dialog.gate is Enter) ==> dialog.mode() == InputMode::Insert,
{
}

/// A line whose words fit on one row takes one row.
pub proof fn law_a_line_that_fits_takes_one_row(words: Seq<Seq<char>>, width: nat)
    requires
        forall|i: int| 0 <= i < words.len() ==> (#[trigger] words[i]).len() > 0,
        words.len() == 0 || length_of(words) <= width,
    ensures
        with_words(words, width).0 == 1,
        words.len() > 0 ==> with_words(words, width).1 == length_of(words),
    decreases words.len(),
{
    if words.len() > 0 {
        let before = words.drop_last();
        assert forall|i: int| 0 <= i < before.len() implies (#[trigger] before[i]).len() > 0 by {
            assert(before[i] == words[i]);
        }
        law_a_line_that_fits_takes_one_row(before, width);
        if before.len() > 0 {
            lemma_length_is_positive(before);
        }
    }
}

/// The columns words take on one row, with a blank between each two of them.
pub open spec fn length_of(words: Seq<Seq<char>>) -> nat
    decreases words.len(),
{
    if words.len() == 0 {
        0
    } else if words.len() == 1 {
        words[0].len()
    } else {
        length_of(words.drop_last()) + 1 + words.last().len()
    }
}

proof fn lemma_length_is_positive(words: Seq<Seq<char>>)
    requires
        words.len() > 0,
        forall|i: int| 0 <= i < words.len() ==> (#[trigger] words[i]).len() > 0,
    ensures
        length_of(words) > 0,
{
    assert(words[0].len() > 0);
    assert(words[words.len() - 1].len() > 0);
}

/// A drawn dialog holds all of its body and its guard, in the colours of destruction.
pub proof fn law_a_drawn_dialog_holds_its_body(
    dialog: ConfirmComponent,
    area: Rect,
    theme: Theme,
    v: ConfirmView,
)
    requires
        dialog.is_drawn(area, &theme, Some(v)),
    ensures
        !area.is_empty(),
        v.area == area,
        v.border == theme::border_destructive(&theme),
        v.title@[1].0 == dialog.title@,
        v.body@.len() == dialog.body_lines(theme).len(),
        forall|i: int|
            0 <= i < v.body@.len() ==> (#[trigger] v.body@[i])@ == dialog.body_lines(theme)[i],
        v.gate is Some <==> !(dialog.gate is Enter),
        dialog.gate is Enter || dialog.gate is Override ==> v.cursor is None,
{
    assert(lines_of(v.body@).len() == v.body@.len());
    assert forall|i: int| 0 <= i < v.body@.len() implies (#[trigger] v.body@[i])@
        == dialog.body_lines(theme)[i] by {
        assert(lines_of(v.body@)[i] == v.body@[i]@);
    }
}

/// A word goes on in the row where it fits behind a blank, and else starts the next.
pub proof fn law_a_word_that_does_not_fit_starts_a_row(at: (u16, nat), len: nat, width: nat)
    requires
        0 < len <= width,
        at.1 <= width,
        at.0 < u16::MAX,
    ensures
        at.1 == 0 ==> with_word(at, len, width) == (at.0, len),
        at.1 > 0 && at.1 + 1 + len <= width ==> with_word(at, len, width) == (
            at.0,
            at.1 + 1 + len,
        ),
        at.1 > 0 && at.1 + 1 + len > width ==> with_word(at, len, width) == (
            (at.0 + 1) as u16,
            len,
        ),
{
}

} // verus!
