//! The shape every popup with a single field takes, and the footer of keys every
//! popup carries.

use vstd::prelude::*;

use crate::components::modal::{
    cursor_in, gutter, is_countable, place_caret, Extent,
};
use crate::screen::{
    diff, minus, plus, split_rows, text_of, Line, Rect, Share,
};
use crate::text::{char_count, concat};
use crate::theme::{self, Style, Theme};

verus! {

/// Rows a prompt needs: two borders, a padding row, the label, the three rows of
/// the input box, and the status row beneath it.
pub const PROMPT_HEIGHT: u16 = 9;

/// The width policy both prompts share; they differ in how much of the frame
/// they ask for.
#[verifier::allow_in_spec]
pub fn prompt_width(percent: u16, min: u16, max: u16) -> Extent
    returns
        Extent::share(percent, min, max),
{
    Extent::share(percent, min, max)
}

// ---------------------------------------------------------------------------
// The footer
// ---------------------------------------------------------------------------

/// One entry of a footer: the key, what it does, and how loud the key is.
#[derive(Debug, Clone, Copy, PartialEq, Eq)]
pub struct FooterEntry {
    pub key: &'static str,
    pub verb: &'static str,
    pub style: Style,
}

/// The columns an entry takes.
pub open spec fn cost(entry: FooterEntry) -> nat {
    entry.key@.len() + entry.verb@.len() + 4
}

/// How many of the last entries fit into `budget` columns.
pub open spec fn kept(entries: Seq<FooterEntry>, budget: int) -> nat
    decreases entries.len(),
{
    if entries.len() == 0 || cost(entries.last()) > budget {
        0
    } else {
        1 + kept(entries.drop_last(), budget - cost(entries.last()))
    }
}

/// The runs of a list of entries.
pub open spec fn entry_runs(entries: Seq<FooterEntry>, theme: Theme) -> Seq<(Seq<char>, Style)>
    decreases entries.len(),
{
    if entries.len() == 0 {
        Seq::empty()
    } else {
        let e = entries.last();
        entry_runs(entries.drop_last(), theme).push((" ["@ + e.key@ + "] "@, e.style)).push(
            (e.verb@, theme::muted(&theme)),
        )
    }
}

/// The footer fitted to `width`: entries go from the left until the rest fit.
pub open spec fn footer_line(entries: Seq<FooterEntry>, width: u16, theme: Theme) -> Seq<
    (Seq<char>, Style),
> {
    let keep = kept(entries, diff(width, 3) as int);
    entry_runs(entries.skip(entries.len() - keep), theme).push((" "@, Style::plain()))
}

/// How many of the last entries fit.
fn count_kept(entries: &Vec<FooterEntry>, budget: usize) -> (keep: usize)
    ensures
        keep == kept(entries@, budget as int),
        keep <= entries@.len(),
{
    let ghost n = entries@.len() as int;
    let mut room: usize = budget;
    let mut keep: usize = 0;
    assert(entries@.take(n) =~= entries@);
    while keep < entries.len()
        invariant
            n == entries@.len(),
            keep <= entries@.len(),
            kept(entries@, budget as int) == keep + kept(entries@.take(n - keep), room as int),
        decreases entries.len() - keep,
    {
        let entry = &entries[entries.len() - 1 - keep];
        let ghost rest = entries@.take(n - keep);
        assert(rest.last() == *entry);
        assert(rest.drop_last() =~= entries@.take(n - keep - 1));
        let key: usize = char_count(entry.key);
        if key > room {
            return keep;
        }
        let verb: usize = char_count(entry.verb);
        if verb > room - key || room - key - verb < 4 {
            return keep;
        }
        room = room - key - verb - 4;
        keep = keep + 1;
    }
    keep
}

/// The line of keys every popup carries in its bottom border, fitted to `width`.
pub fn footer(entries: &Vec<FooterEntry>, width: u16, theme: &Theme) -> (line: Line)
    ensures
        line@ == footer_line(entries@, width, *theme),
{
    let keep: usize = count_kept(entries, minus(width, 3) as usize);
    let start: usize = entries.len() - keep;
    let ghost shown = entries@.skip(start as int);
    let mut line = Line::empty();
    let mut i: usize = start;
    assert(shown.take(0) =~= Seq::<FooterEntry>::empty());
    while i < entries.len()
        invariant
            start <= i <= entries@.len(),
            shown == entries@.skip(start as int),
            line@ == entry_runs(shown.take(i - start), *theme),
        decreases entries.len() - i,
    {
        let entry = &entries[i];
        let ghost now = shown.take(i - start + 1);
        assert(now.last() == *entry);
        assert(now.drop_last() =~= shown.take(i - start));
        let mut key = concat(" [", entry.key);
        key.append("] ");
        line.push(key.as_str(), entry.style);
        line.push(entry.verb, theme::muted(theme));
        i = i + 1;
    }
    assert(shown.take(shown.len() as int) =~= shown);
    line.push(" ", Style::plain());
    line
}

/// The two entries every prompt ends with: confirm, and the way out.
pub fn confirm_and_cancel(verb: &'static str, theme: &Theme) -> (entries: Vec<FooterEntry>)
    ensures
        entries@ == seq![
            FooterEntry { key: "Enter", verb, style: theme::key(theme) },
            FooterEntry { key: "Esc", verb: "cancel", style: theme::key_safe(theme) },
        ],
{
    let mut entries = Vec::new();
    entries.push(FooterEntry { key: "Enter", verb, style: theme::key(theme) });
    entries.push(FooterEntry { key: "Esc", verb: "cancel", style: theme::key_safe(theme) });
    assert(entries@ =~= seq![
        FooterEntry { key: "Enter", verb, style: theme::key(theme) },
        FooterEntry { key: "Esc", verb: "cancel", style: theme::key_safe(theme) },
    ]);
    entries
}

/// What a list of entries costs.
pub open spec fn total_cost(entries: Seq<FooterEntry>) -> nat
    decreases entries.len(),
{
    if entries.len() == 0 {
        0
    } else {
        total_cost(entries.drop_last()) + cost(entries.last())
    }
}

proof fn lemma_entry_runs_len(entries: Seq<FooterEntry>, theme: Theme)
    ensures
        text_of(entry_runs(entries, theme)).len() == total_cost(entries),
    decreases entries.len(),
{
    if entries.len() > 0 {
        let e = entries.last();
        lemma_entry_runs_len(entries.drop_last(), theme);
        reveal_strlit(" [");
        reveal_strlit("] ");
        let before = entry_runs(entries.drop_last(), theme);
        let one = before.push((" ["@ + e.key@ + "] "@, e.style));
        let two = one.push((e.verb@, theme::muted(&theme)));
        assert(one.drop_last() =~= before);
        assert(two.drop_last() =~= one);
        assert(entry_runs(entries, theme) == two);
        assert(text_of(two) == text_of(one) + e.verb@);
        assert(text_of(one) == text_of(before) + (" ["@ + e.key@ + "] "@));
    }
}

proof fn lemma_kept(entries: Seq<FooterEntry>, budget: int)
    requires
        budget >= 0,
    ensures
        kept(entries, budget) <= entries.len(),
        total_cost(entries.skip(entries.len() - kept(entries, budget))) <= budget,
        kept(entries, budget) < entries.len() ==> total_cost(
            entries.skip(entries.len() - kept(entries, budget) - 1),
        ) > budget,
    decreases entries.len(),
{
    let n = entries.len() as int;
    if entries.len() == 0 || cost(entries.last()) > budget {
        assert(entries.skip(n) =~= Seq::<FooterEntry>::empty());
        if n > 0 {
            let one = entries.skip(n - 1);
            assert(one.last() == entries.last());
            assert(one.drop_last() =~= Seq::<FooterEntry>::empty());
        }
    } else {
        let rest = entries.drop_last();
        let left = budget - cost(entries.last());
        lemma_kept(rest, left);
        let k = kept(rest, left) as int;
        assert(kept(entries, budget) == k + 1);
        assert(entries.skip(n - k - 1).drop_last() =~= rest.skip(n - 1 - k));
        assert(entries.skip(n - k - 1).last() == entries.last());
        if k + 1 < n {
            assert(entries.skip(n - k - 2).drop_last() =~= rest.skip(n - 1 - k - 1));
            assert(entries.skip(n - k - 2).last() == entries.last());
        }
    }
}

/// The footer never runs past the border it is drawn into, and keeps as many
/// entries as fit: the last ones, so that the way out is the one that survives.
pub proof fn law_the_footer_fits_its_border(entries: Seq<FooterEntry>, width: u16, theme: Theme)
    requires
        width >= 3,
    ensures
        text_of(footer_line(entries, width, theme)).len() <= width - 2,
        ({
            let keep = kept(entries, width - 3);
            keep <= entries.len() && (keep < entries.len() ==> total_cost(
                entries.skip(entries.len() - keep - 1),
            ) > width - 3)
        }),
{
    lemma_kept(entries, width - 3);
    let shown = entries.skip(entries.len() - kept(entries, width - 3));
    lemma_entry_runs_len(shown, theme);
    let line = footer_line(entries, width, theme);
    assert(line.drop_last() =~= entry_runs(shown, theme));
    reveal_strlit(" ");
}

// ---------------------------------------------------------------------------
// The prompt
// ---------------------------------------------------------------------------

/// One labelled text field in a popup, built afresh for each frame.
#[derive(Debug, PartialEq, Eq)]
pub struct Prompt {
    /// What this popup is.
    pub title: String,
    /// The standing context the question is asked in.
    pub context: Option<String>,
    /// The name of the field.
    pub label: String,
    /// A caveat about the field itself, off to the right.
    pub aside: Option<(String, Style)>,
    /// What the user has typed, and what to show when they have not.
    pub value: String,
    pub placeholder: String,
    /// How many characters stand before the caret.
    pub cursor: usize,
    /// Whether the value can be accepted as it is.
    pub valid: bool,
    /// A hint, a warning or a failure, beneath the input.
    pub status: Option<(String, Style)>,
    /// The keys.
    pub footer: Vec<FooterEntry>,
}

/// A prompt as it is drawn.
#[derive(Debug, PartialEq, Eq)]
pub struct PromptView {
    pub area: Rect,
    pub border: Style,
    pub surface: Style,
    /// At the left of the top border.
    pub title: Line,
    /// At the right of the top border.
    pub context: Option<Line>,
    /// At the right of the bottom border.
    pub footer: Line,
    pub label: Line,
    /// At the right of the label's row.
    pub aside: Option<Line>,
    pub label_area: Rect,
    /// Inside a box of its own.
    pub input: Line,
    pub input_border: Style,
    pub input_area: Rect,
    /// Wrapped, not cut.
    pub status: Option<Line>,
    pub status_area: Rect,
    pub cursor: Option<(u16, u16)>,
}

/// The runs of a line that may be missing.
pub open spec fn line_view(line: Option<Line>) -> Option<Seq<(Seq<char>, Style)>> {
    match line {
        Some(line) => Some(line@),
        None => None,
    }
}

/// The parts of a prompt, top to bottom: padding, label, input, status.
pub open spec fn prompt_shares() -> Seq<Share> {
    seq![Share::Length(1), Share::Length(1), Share::Length(3), Share::AtLeast(0)]
}

impl Prompt {
    /// The context is dropped rather than overlapped where title and context do
    /// not both fit.
    pub open spec fn context_line(self, area: Rect, theme: Theme) -> Option<
        Seq<(Seq<char>, Style)>,
    > {
        match self.context {
            Some(context) => if area.width >= self.title@.len() + context@.len() + 8 {
                Some(seq![(" "@ + context@ + " "@, theme::muted(&theme))])
            } else {
                None
            },
            None => None,
        }
    }

    /// The caveat is drawn only where it and the label both fit whole.
    pub open spec fn aside_line(self, label_area: Rect) -> Option<Seq<(Seq<char>, Style)>> {
        match self.aside {
            Some((aside, style)) => if label_area.width >= self.label@.len() + aside@.len() + 2 {
                Some(seq![(aside@, style)])
            } else {
                None
            },
            None => None,
        }
    }

    pub open spec fn input_line(self, theme: Theme) -> Seq<(Seq<char>, Style)> {
        if self.value@.len() == 0 {
            seq![(self.placeholder@, theme::muted(&theme).italic())]
        } else {
            seq![(self.value@, theme::text(&theme).bold())]
        }
    }

    pub open spec fn status_line(self, theme: Theme) -> Option<Seq<(Seq<char>, Style)>> {
        match self.status {
            Some((status, style)) => Some(
                seq![("\u{21b3} "@, theme::rule(&theme)), (status@, style)],
            ),
            None => None,
        }
    }

    /// What is drawn of the prompt: nothing where there is no room. The areas are
    /// stated exactly where the rows fit; where they do not, each lies within
    /// the border, and how the rows share the shortage is the layout's to say.
    pub open spec fn is_drawn(self, area: Rect, theme: Theme, view: Option<PromptView>) -> bool {
        &&& view is None <==> area.is_empty()
        &&& view matches Some(v) ==> {
                let inner = area.spec_within_border();
                let pad = gutter(inner.width);
                &&& v.area == area
                &&& v.border == theme::border_focused(&theme)
                &&& v.surface == theme::popup_surface(&theme)
                &&& v.title@ == seq![
                    (" \u{258f}"@, theme::key(&theme)),
                    (self.title@, theme::title(&theme)),
                    (" "@, Style::plain()),
                ]
                &&& line_view(v.context) == self.context_line(area, theme)
                &&& v.footer@ == footer_line(self.footer@, area.width, theme)
                &&& v.label@ == seq![(self.label@, theme::secondary(&theme))]
                &&& line_view(v.aside) == self.aside_line(v.label_area)
                &&& v.input@ == self.input_line(theme)
                &&& v.input_border == (if self.valid {
                    theme::border_input_focused(&theme)
                } else {
                    theme::border_destructive(&theme)
                })
                &&& line_view(v.status) == self.status_line(theme)
                &&& v.cursor == cursor_in(
                    v.input_area,
                    v.input_area.x + 2 + self.cursor,
                    v.input_area.y + 1,
                )
                &&& inner.holds(v.label_area) && inner.holds(v.input_area) && inner.holds(
                    v.status_area,
                )
                &&& inner.height >= 5 ==> {
                    let x = (inner.x + pad) as u16;
                    let width = (inner.width - 2 * pad) as u16;
                    &&& v.label_area == (Rect { x, y: (inner.y + 1) as u16, width, height: 1 })
                    &&& v.input_area == (Rect { x, y: (inner.y + 2) as u16, width, height: 3 })
                    &&& v.status_area == (Rect {
                        x,
                        y: (inner.y + 5) as u16,
                        width,
                        height: (inner.height - 5) as u16,
                    })
                }
            }
    }

    /// The prompt as it is drawn into `area`.
    pub fn render(&self, area: Rect, theme: &Theme) -> (view: Option<PromptView>)
        requires
            is_countable(area),
        ensures
            self.is_drawn(area, *theme, view),
    {
        if area.is_empty() {
            return None;
        }
        let mut title = Line::empty();
        title.push(" \u{258f}", theme::key(theme));
        title.push(self.title.as_str(), theme::title(theme));
        title.push(" ", Style::plain());
        assert(title@ =~= seq![
            (" \u{258f}"@, theme::key(theme)),
            (self.title@, theme::title(theme)),
            (" "@, Style::plain()),
        ]);
        let context = match &self.context {
            Some(context) => if fits_beside(&self.title, context, 8, area.width) {
                let mut text = concat(" ", context.as_str());
                text.append(" ");
                Some(Line::styled(text.as_str(), theme::muted(theme)))
            } else {
                None
            },
            None => None,
        };

        let inner = area.within_border();
        let mut shares: Vec<Share> = Vec::new();
        shares.push(Share::Length(1));
        shares.push(Share::Length(1));
        shares.push(Share::Length(3));
        shares.push(Share::AtLeast(0));
        let ghost asked = shares@;
        proof {
            assert(asked =~= prompt_shares());
            lemma_prompt_rows(inner.height as nat);
        }
        let rows = split_rows(inner, gutter(inner.width), &shares);
        let label_area = rows[1];
        let input_area = rows[2];
        let status_area = rows[3];

        let aside = match &self.aside {
            Some((aside, style)) => if fits_beside(&self.label, aside, 2, label_area.width) {
                Some(Line::styled(aside.as_str(), *style))
            } else {
                None
            },
            None => None,
        };
        let input = if self.value.as_str().is_empty() {
            Line::styled(self.placeholder.as_str(), theme::muted(theme).italic())
        } else {
            Line::styled(self.value.as_str(), theme::text(theme).bold())
        };
        let status = match &self.status {
            Some((status, style)) => {
                let mut line = Line::empty();
                line.push("\u{21b3} ", theme::rule(theme));
                line.push(status.as_str(), *style);
                assert(line@ =~= seq![("\u{21b3} "@, theme::rule(theme)), (status@, *style)]);
                Some(line)
            },
            None => None,
        };
        let cursor = place_caret(input_area, 2, self.cursor, plus(input_area.y, 1));
        Some(
            PromptView {
                area,
                border: theme::border_focused(theme),
                surface: theme::popup_surface(theme),
                title,
                context,
                footer: footer(&self.footer, area.width, theme),
                label: Line::styled(self.label.as_str(), theme::secondary(theme)),
                aside,
                label_area,
                input,
                input_border: if self.valid {
                    theme::border_input_focused(theme)
                } else {
                    theme::border_destructive(theme)
                },
                input_area,
                status,
                status_area,
                cursor,
            },
        )
    }
}

/// Whether two texts and `gap` cells between and around them fit into `width`.
fn fits_beside(a: &String, b: &String, gap: u16, width: u16) -> (yes: bool)
    ensures
        yes == (width >= a@.len() + b@.len() + gap),
{
    let x: usize = char_count(a.as_str());
    let y: usize = char_count(b.as_str());
    x <= width as usize && y <= width as usize && x + y + gap as usize <= width as usize
}

proof fn lemma_prompt_rows(room: nat)
    ensures
        crate::screen::elastic(prompt_shares()) == 1,
        crate::screen::floors(prompt_shares()) == 5,
        crate::screen::start_of_part(prompt_shares(), room, 1) == 1,
        crate::screen::start_of_part(prompt_shares(), room, 2) == 2,
        crate::screen::start_of_part(prompt_shares(), room, 3) == 5,
{
    reveal_with_fuel(crate::screen::floors, 5);
    reveal_with_fuel(crate::screen::elastic, 5);
    reveal_with_fuel(crate::screen::start_of_part, 5);
    let s = prompt_shares();
    assert(s.drop_last() =~= seq![Share::Length(1), Share::Length(1), Share::Length(3)]);
    assert(s.drop_last().drop_last() =~= seq![Share::Length(1), Share::Length(1)]);
    assert(s.drop_last().drop_last().drop_last() =~= seq![Share::Length(1)]);
    assert(s.drop_last().drop_last().drop_last().drop_last() =~= Seq::<Share>::empty());
}

/// A footer shows its entries in order, each as its key in brackets and what it
/// does; what does not fit goes from the front.
pub proof fn law_a_footer_shows_keys_and_what_they_do(
    entries: Seq<FooterEntry>,
    last: FooterEntry,
    theme: Theme,
)
    ensures
        entry_runs(entries.push(last), theme) == entry_runs(entries, theme) + seq![
            (" ["@ + last.key@ + "] "@, last.style),
            (last.verb@, theme::muted(&theme)),
        ],
        entry_runs(Seq::<FooterEntry>::empty(), theme).len() == 0,
        total_cost(entries.push(last)) == total_cost(entries) + last.key@.len() + last.verb@.len()
            + 4,
{
    assert(entries.push(last).drop_last() =~= entries);
    assert(entry_runs(entries.push(last), theme) =~= entry_runs(entries, theme) + seq![
        (" ["@ + last.key@ + "] "@, last.style),
        (last.verb@, theme::muted(&theme)),
    ]);
}

/// A prompt shows what was typed, or else what could be; and beneath it what there
/// is to say of that.
pub proof fn law_a_prompt_shows_what_was_typed(prompt: Prompt, area: Rect, theme: Theme)
    ensures
        prompt.value@.len() > 0 ==> prompt.input_line(theme).len() == 1 && prompt.input_line(
            theme,
        )[0].0 == prompt.value@,
        prompt.value@.len() == 0 ==> prompt.input_line(theme).len() == 1 && prompt.input_line(
            theme,
        )[0].0 == prompt.placeholder@,
        prompt.status matches Some(note) ==> (prompt.status_line(theme) matches Some(line)
            && line[1] == (note.0@, note.1)),
        prompt.status is None <==> prompt.status_line(theme) is None,
        prompt.aside matches Some(note) ==> (prompt.aside_line(area) is Some <==> area.width
            >= prompt.label@.len() + note.0@.len() + 2),
        prompt.aside matches Some(note) ==> (prompt.aside_line(area) matches Some(line)
            ==> line == seq![(note.0@, note.1)]),
        prompt.context matches Some(context) ==> (prompt.context_line(area, theme) is Some
            <==> area.width >= prompt.title@.len() + context@.len() + 8),
        prompt.context matches Some(context) ==> (prompt.context_line(area, theme) matches Some(
            line,
        ) ==> line[0].0 == " "@ + context@ + " "@),
{
}

/// A drawn prompt marks a text that is wrong by the border round it, and its caret
/// stands behind as many characters as were counted.
pub proof fn law_a_wrong_text_is_marked_by_its_border(
    prompt: Prompt,
    area: Rect,
    theme: Theme,
    v: PromptView,
)
    requires
        prompt.is_drawn(area, theme, Some(v)),
        is_countable(area),
        area.height >= 7,
    ensures
        !area.is_empty(),
        prompt.valid ==> v.input_border == theme::border_input_focused(&theme),
        !prompt.valid ==> v.input_border == theme::border_destructive(&theme),
        v.title@[1].0 == prompt.title@,
        v.label@[0].0 == prompt.label@,
        v.input@ == prompt.input_line(theme),
        v.input_area.height == 3,
        v.label_area.y + 1 == v.input_area.y,
        v.input_area.y + 3 == v.status_area.y,
        2 + prompt.cursor < v.input_area.width ==> v.cursor == Some(
            ((v.input_area.x + 2 + prompt.cursor) as u16, (v.input_area.y + 1) as u16),
        ),
{
}

} // verus!
