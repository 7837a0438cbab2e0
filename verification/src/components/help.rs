//! The keybinding reference: the one popup sized by its own content, and so the
//! one that scrolls.

use vstd::prelude::*;

use crate::components::modal::{
    gutter, is_countable, popup_area, popup_in, Extent,
};
use crate::components::prompt::{footer, footer_line, FooterEntry};
use crate::components::{Action, EventState};
use crate::screen::{
    diff, lesser, lines_of, min_u16, minus, plus, push_line, sum, Line, Rect,
};
use crate::text::{char_count, concat, repeat_char, repeated, same_text};
use crate::theme::{self, Style, Theme};

verus! {

/// Width of the key column, so that every description starts on the same one.
pub const KEY_COLUMN: usize = 12;

/// The heading of the keys of a list.
pub const KEYS_SECTION: &'static str = "Keybindings";

/// The heading of the keys while a filter is being typed.
pub const FILTER_SECTION: &'static str = "Filter mode";

/// How loud the key of a hint is.
#[derive(Debug, Clone, Copy, PartialEq, Eq, Structural)]
pub enum Loudness {
    Plain,
    /// The way out.
    Safe,
    /// Something is lost.
    Destructive,
}

/// Where a hint stands in the footer. What stands last is dropped last.
#[derive(Debug, Clone, Copy, PartialEq, Eq, Structural)]
pub enum Place {
    /// First, and so the first to go.
    Aside,
    Ordinary,
    /// Last, and so the one that survives.
    Essential,
}

/// A key and what it does, and what the footer says of it, if anything.
#[derive(Debug, Clone, Copy, PartialEq, Eq)]
pub struct Binding {
    pub key: &'static str,
    pub desc: &'static str,
    /// The key and the verb of the footer.
    pub hint: Option<(&'static str, &'static str)>,
    pub loudness: Loudness,
    pub place: Place,
}

/// One row of the reference.
#[derive(Debug, Clone, Copy, PartialEq, Eq)]
pub enum HelpEntry {
    Binding(Binding),
    Section(&'static str),
    Blank,
}

impl HelpEntry {
    /// A key and what it does, with nothing in the footer.
    #[verifier::allow_in_spec]
    pub fn bind(key: &'static str, desc: &'static str) -> HelpEntry
        returns
            HelpEntry::Binding(
                Binding {
                    key,
                    desc,
                    hint: None,
                    loudness: Loudness::Plain,
                    place: Place::Ordinary,
                },
            ),
    {
        HelpEntry::Binding(
            Binding { key, desc, hint: None, loudness: Loudness::Plain, place: Place::Ordinary },
        )
    }

    /// The same row, shown in the footer as `key` and `verb`.
    #[verifier::allow_in_spec]
    pub fn hint(self, key: &'static str, verb: &'static str) -> HelpEntry
        returns
            (match self {
                HelpEntry::Binding(b) => HelpEntry::Binding(
                    Binding { hint: Some((key, verb)), ..b },
                ),
                other => other,
            }),
    {
        match self {
            HelpEntry::Binding(b) => HelpEntry::Binding(Binding { hint: Some((key, verb)), ..b }),
            other => other,
        }
    }

    /// The same row as the safe way out.
    #[verifier::allow_in_spec]
    pub fn safe(self) -> HelpEntry
        returns
            (match self {
                HelpEntry::Binding(b) => HelpEntry::Binding(
                    Binding { loudness: Loudness::Safe, ..b },
                ),
                other => other,
            }),
    {
        match self {
            HelpEntry::Binding(b) => HelpEntry::Binding(Binding { loudness: Loudness::Safe, ..b }),
            other => other,
        }
    }

    /// The same row as one that loses something.
    #[verifier::allow_in_spec]
    pub fn destructive(self) -> HelpEntry
        returns
            (match self {
                HelpEntry::Binding(b) => HelpEntry::Binding(
                    Binding { loudness: Loudness::Destructive, ..b },
                ),
                other => other,
            }),
    {
        match self {
            HelpEntry::Binding(b) => HelpEntry::Binding(
                Binding { loudness: Loudness::Destructive, ..b },
            ),
            other => other,
        }
    }

    /// The same row, kept longest in the footer.
    #[verifier::allow_in_spec]
    pub fn essential(self) -> HelpEntry
        returns
            (match self {
                HelpEntry::Binding(b) => HelpEntry::Binding(
                    Binding { place: Place::Essential, ..b },
                ),
                other => other,
            }),
    {
        match self {
            HelpEntry::Binding(b) => HelpEntry::Binding(Binding { place: Place::Essential, ..b }),
            other => other,
        }
    }

    /// The same row, dropped first from the footer.
    #[verifier::allow_in_spec]
    pub fn aside(self) -> HelpEntry
        returns
            (match self {
                HelpEntry::Binding(b) => HelpEntry::Binding(Binding { place: Place::Aside, ..b }),
                other => other,
            }),
    {
        match self {
            HelpEntry::Binding(b) => HelpEntry::Binding(Binding { place: Place::Aside, ..b }),
            other => other,
        }
    }
}

// ---------------------------------------------------------------------------
// The footer
// ---------------------------------------------------------------------------

/// The heading the row after `entries` stands under.
pub open spec fn heading(entries: Seq<HelpEntry>) -> Option<Seq<char>>
    decreases entries.len(),
{
    if entries.len() == 0 {
        None
    } else {
        match entries.last() {
            HelpEntry::Section(title) => Some(title@),
            _ => heading(entries.drop_last()),
        }
    }
}

/// The footer entry of a binding.
pub open spec fn footer_entry(b: Binding, theme: Theme) -> FooterEntry {
    FooterEntry {
        key: (b.hint->0).0,
        verb: (b.hint->0).1,
        style: match b.loudness {
            Loudness::Plain => theme::key(&theme),
            Loudness::Safe => theme::key_safe(&theme),
            Loudness::Destructive => theme::key_destructive(&theme),
        },
    }
}

/// The hints of one section that stand at one place, in table order.
pub open spec fn hints(
    entries: Seq<HelpEntry>,
    section: Seq<char>,
    place: Place,
    theme: Theme,
) -> Seq<FooterEntry>
    decreases entries.len(),
{
    if entries.len() == 0 {
        Seq::empty()
    } else {
        let before = hints(entries.drop_last(), section, place, theme);
        match entries.last() {
            HelpEntry::Binding(b) => if b.hint is Some && b.place == place && heading(
                entries.drop_last(),
            ) == Some(section) {
                before.push(footer_entry(b, theme))
            } else {
                before
            },
            _ => before,
        }
    }
}

/// The footer of one section: asides first, then the rest in table order, then
/// what must survive.
pub open spec fn footer_of(entries: Seq<HelpEntry>, section: Seq<char>, theme: Theme) -> Seq<
    FooterEntry,
> {
    hints(entries, section, Place::Aside, theme) + hints(entries, section, Place::Ordinary, theme)
        + hints(entries, section, Place::Essential, theme)
}

fn add_hints(
    out: &mut Vec<FooterEntry>,
    entries: &Vec<HelpEntry>,
    section: &str,
    place: Place,
    theme: &Theme,
)
    ensures
        final(out)@ == old(out)@ + hints(entries@, section@, place, *theme),
{
    let ghost before = out@;
    let mut inside = false;
    let mut i: usize = 0;
    assert(entries@.take(0) =~= Seq::<HelpEntry>::empty());
    assert(before + hints(entries@.take(0), section@, place, *theme) =~= before);
    while i < entries.len()
        invariant
            i <= entries@.len(),
            inside == (heading(entries@.take(i as int)) == Some(section@)),
            out@ == before + hints(entries@.take(i as int), section@, place, *theme),
        decreases entries.len() - i,
    {
        let ghost now = entries@.take(i + 1);
        assert(now.drop_last() =~= entries@.take(i as int));
        assert(now.last() == entries@[i as int]);
        match &entries[i] {
            HelpEntry::Section(title) => {
                inside = same_text(title, section);
            },
            HelpEntry::Binding(b) => {
                if let Some((key, verb)) = b.hint {
                    if inside && b.place == place {
                        let style = match b.loudness {
                            Loudness::Plain => theme::key(theme),
                            Loudness::Safe => theme::key_safe(theme),
                            Loudness::Destructive => theme::key_destructive(theme),
                        };
                        out.push(FooterEntry { key, verb, style });
                        assert(out@ =~= before + hints(now, section@, place, *theme));
                    }
                }
            },
            HelpEntry::Blank => {},
        }
        i = i + 1;
    }
    assert(entries@.take(entries@.len() as int) =~= entries@);
}

/// The footer of one section of a table.
pub fn footer_entries(entries: &Vec<HelpEntry>, section: &str, theme: &Theme) -> (out: Vec<
    FooterEntry,
>)
    ensures
        out@ == footer_of(entries@, section@, *theme),
{
    let mut out: Vec<FooterEntry> = Vec::new();
    add_hints(&mut out, entries, section, Place::Aside, theme);
    add_hints(&mut out, entries, section, Place::Ordinary, theme);
    add_hints(&mut out, entries, section, Place::Essential, theme);
    assert(out@ =~= footer_of(entries@, section@, *theme));
    out
}

// ---------------------------------------------------------------------------
// The reference
// ---------------------------------------------------------------------------

/// A key padded out to its column, always with at least one space after it.
pub open spec fn key_text(key: Seq<char>) -> Seq<char> {
    key + repeated(
        ' ',
        if key.len() + 1 >= KEY_COLUMN {
            1
        } else {
            (KEY_COLUMN - key.len()) as nat
        },
    )
}

fn key_cell(key: &str) -> (cell: String)
    ensures
        cell@ == key_text(key@),
{
    let n: usize = char_count(key);
    let pad: usize = if n >= KEY_COLUMN - 1 {
        1
    } else {
        KEY_COLUMN - n
    };
    concat(key, repeat_char(' ', pad).as_str())
}

/// The columns one row asks for.
pub open spec fn entry_width(entry: HelpEntry) -> nat {
    match entry {
        HelpEntry::Binding(b) => key_text(b.key@).len() + b.desc@.len(),
        HelpEntry::Section(title) => title@.len(),
        HelpEntry::Blank => 0,
    }
}

/// The widest row.
pub open spec fn widest(entries: Seq<HelpEntry>) -> nat
    decreases entries.len(),
{
    if entries.len() == 0 {
        0
    } else {
        let before = widest(entries.drop_last());
        let last = entry_width(entries.last());
        if last > before {
            last
        } else {
            before
        }
    }
}

/// How many headings there are.
pub open spec fn headings(entries: Seq<HelpEntry>) -> nat
    decreases entries.len(),
{
    if entries.len() == 0 {
        0
    } else {
        headings(entries.drop_last()) + (if entries.last() is Section {
            1nat
        } else {
            0
        })
    }
}

/// A number, or the largest that sixteen bits hold.
pub open spec fn capped(n: nat) -> u16 {
    if n < 65535 {
        n as u16
    } else {
        65535
    }
}

fn cap(n: u128) -> (out: u16)
    ensures
        out == capped(n as nat),
{
    if n < 65535 {
        n as u16
    } else {
        65535
    }
}

/// The lines one row is drawn as: a heading brings a rule and an empty line.
pub open spec fn entry_lines(entry: HelpEntry, width: u16, theme: Theme) -> Seq<
    Seq<(Seq<char>, Style)>,
> {
    match entry {
        HelpEntry::Binding(b) => seq![
            seq![(key_text(b.key@), theme::key(&theme)), (b.desc@, theme::secondary(&theme))],
        ],
        HelpEntry::Section(title) => seq![
            seq![
                (title@, theme::title(&theme)),
                (" "@, Style::plain()),
                (
                    repeated(
                        '\u{2500}',
                        if width >= title@.len() + 1 {
                            (width - title@.len() - 1) as nat
                        } else {
                            0
                        },
                    ),
                    theme::rule(&theme),
                ),
            ],
            Seq::empty(),
        ],
        HelpEntry::Blank => seq![Seq::empty()],
    }
}

/// The lines of the whole table.
pub open spec fn table_lines(entries: Seq<HelpEntry>, width: u16, theme: Theme) -> Seq<
    Seq<(Seq<char>, Style)>,
>
    decreases entries.len(),
{
    if entries.len() == 0 {
        Seq::empty()
    } else {
        table_lines(entries.drop_last(), width, theme) + entry_lines(entries.last(), width, theme)
    }
}

/// Where a scrollbar stands.
#[derive(Debug, Clone, Copy, PartialEq, Eq, Structural)]
pub struct Bar {
    /// How many rows there are.
    pub content: usize,
    /// The first one shown.
    pub position: usize,
    /// How many are shown.
    pub viewport: usize,
}

/// The reference as it is drawn.
#[derive(Debug, PartialEq, Eq)]
pub struct HelpView {
    pub area: Rect,
    pub border: Style,
    pub surface: Style,
    /// In the middle of the top border.
    pub title: Line,
    pub footer: Line,
    pub rows: Vec<Line>,
    pub rows_area: Rect,
    /// The first row shown.
    pub scroll: u16,
    /// Over the last column within the border.
    pub bar: Option<Bar>,
    pub bar_area: Rect,
}

/// The reference popup.
#[derive(Debug, PartialEq, Eq)]
pub struct HelpComponent {
    pub entries: Vec<HelpEntry>,
    /// First visible row.
    pub scroll: u16,
    /// Rows the last frame could show, and rows it had.
    pub viewport: u16,
    pub content: u16,
}

/// The rows a popup of this height shows.
pub open spec fn rows_shown(height: u16) -> u16 {
    diff(
        height,
        if height >= 7 {
            4
        } else {
            2
        },
    )
}

/// `area` without `columns` cells at the left and the right and `rows` cells at
/// the top and the bottom.
pub open spec fn inset_by(area: Rect, columns: u16, rows: u16) -> Rect {
    Rect {
        x: (area.x + columns) as u16,
        y: (area.y + rows) as u16,
        width: (area.width - 2 * columns) as u16,
        height: (area.height - 2 * rows) as u16,
    }
}

fn inset(area: Rect, columns: u16, rows: u16) -> (inner: Rect)
    requires
        2 * columns <= area.width,
        2 * rows <= area.height,
        is_countable(area),
    ensures
        inner == inset_by(area, columns, rows),
        area.holds(inner),
{
    Rect {
        x: area.x + columns,
        y: area.y + rows,
        width: area.width - 2 * columns,
        height: area.height - 2 * rows,
    }
}

/// Whether a key moves the window over the table.
pub open spec fn scrolls(action: Action) -> bool {
    match action {
        Action::MoveDown | Action::MoveUp | Action::GoFirst | Action::GoLast => true,
        _ => false,
    }
}

impl HelpComponent {
    pub fn new(entries: Vec<HelpEntry>) -> (help: HelpComponent)
        ensures
            help == (HelpComponent { entries, scroll: 0, viewport: 0, content: 0 }),
    {
        HelpComponent { entries, scroll: 0, viewport: 0, content: 0 }
    }

    /// The rows below the fold.
    pub open spec fn hidden(self) -> u16 {
        diff(self.content, self.viewport)
    }

    /// The size the popup would like, borders and padding counted.
    pub open spec fn wanted(self) -> (u16, u16) {
        (
            sum(capped(widest(self.entries@)), 6),
            sum(sum(capped(self.entries@.len()), capped(headings(self.entries@))), 4),
        )
    }

    /// The size the popup would like: a request, which the frame may cut.
    pub fn dimensions(&self) -> (size: (u16, u16))
        ensures
            size == self.wanted(),
    {
        let mut width: u128 = 0;
        let mut sections: u128 = 0;
        let mut i: usize = 0;
        assert(self.entries@.take(0) =~= Seq::<HelpEntry>::empty());
        while i < self.entries.len()
            invariant
                i <= self.entries@.len(),
                width == widest(self.entries@.take(i as int)),
                sections == headings(self.entries@.take(i as int)),
                sections <= i,
            decreases self.entries.len() - i,
        {
            let ghost now = self.entries@.take(i + 1);
            assert(now.drop_last() =~= self.entries@.take(i as int));
            assert(now.last() == self.entries@[i as int]);
            let w: u128 = match &self.entries[i] {
                HelpEntry::Binding(b) => {
                    let key: usize = char_count(key_cell(b.key).as_str());
                    let desc: usize = char_count(b.desc);
                    key as u128 + desc as u128
                },
                HelpEntry::Section(title) => {
                    sections = sections + 1;
                    let n: usize = char_count(title);
                    n as u128
                },
                HelpEntry::Blank => 0,
            };
            assert(w == entry_width(self.entries@[i as int]));
            if w > width {
                width = w;
            }
            i = i + 1;
        }
        assert(self.entries@.take(self.entries@.len() as int) =~= self.entries@);
        let columns: u16 = cap(width);
        let rows: u16 = cap(self.entries.len() as u128);
        let rules: u16 = cap(sections);
        (plus(columns, 6), plus(plus(rows, rules), 4))
    }

    /// Where the popup sits inside the frame.
    pub fn area(&self, full: Rect) -> (area: Rect)
        requires
            is_countable(full),
        ensures
            area == popup_in(
                full,
                Extent::fixed(self.wanted().0),
                Extent::fixed(self.wanted().1),
            ),
    {
        let (width, height) = self.dimensions();
        popup_area(full, Extent::fixed(width), Extent::fixed(height))
    }

    /// The table, a line for each row.
    pub fn rows(&self, width: u16, theme: &Theme) -> (rows: Vec<Line>)
        ensures
            lines_of(rows@) == table_lines(self.entries@, width, *theme),
    {
        let mut rows: Vec<Line> = Vec::new();
        let mut i: usize = 0;
        assert(self.entries@.take(0) =~= Seq::<HelpEntry>::empty());
        assert(lines_of(rows@) =~= Seq::<Seq<(Seq<char>, Style)>>::empty());
        while i < self.entries.len()
            invariant
                i <= self.entries@.len(),
                lines_of(rows@) == table_lines(self.entries@.take(i as int), width, *theme),
            decreases self.entries.len() - i,
        {
            let ghost now = self.entries@.take(i + 1);
            let ghost before = lines_of(rows@);
            assert(now.drop_last() =~= self.entries@.take(i as int));
            assert(now.last() == self.entries@[i as int]);
            match &self.entries[i] {
                HelpEntry::Binding(b) => {
                    let mut line = Line::empty();
                    line.push(key_cell(b.key).as_str(), theme::key(theme));
                    line.push(b.desc, theme::secondary(theme));
                    assert(line@ =~= seq![
                        (key_text(b.key@), theme::key(theme)),
                        (b.desc@, theme::secondary(theme)),
                    ]);
                    push_line(&mut rows, line);
                },
                HelpEntry::Section(title) => {
                    let n: usize = char_count(title);
                    let rule: usize = if n < width as usize {
                        width as usize - n - 1
                    } else {
                        0
                    };
                    let mut line = Line::empty();
                    line.push(title, theme::title(theme));
                    line.push(" ", Style::plain());
                    line.push(repeat_char('\u{2500}', rule).as_str(), theme::rule(theme));
                    assert(line@ =~= entry_lines(self.entries@[i as int], width, *theme)[0]);
                    push_line(&mut rows, line);
                    push_line(&mut rows, Line::empty());
                },
                HelpEntry::Blank => {
                    push_line(&mut rows, Line::empty());
                },
            }
            assert(lines_of(rows@) =~= before + entry_lines(
                self.entries@[i as int],
                width,
                *theme,
            ));
            i = i + 1;
        }
        assert(self.entries@.take(self.entries@.len() as int) =~= self.entries@);
        rows
    }

    /// How many lines the table takes, as far as sixteen bits count.
    fn row_count(&self) -> (rows: u16)
        ensures
            rows == total_rows(self.entries@),
    {
        let mut rows: u16 = 0;
        let mut i: usize = 0;
        assert(self.entries@.take(0) =~= Seq::<HelpEntry>::empty());
        while i < self.entries.len()
            invariant
                i <= self.entries@.len(),
                rows == total_rows(self.entries@.take(i as int)),
            decreases self.entries.len() - i,
        {
            let ghost now = self.entries@.take(i + 1);
            assert(now.drop_last() =~= self.entries@.take(i as int));
            assert(now.last() == self.entries@[i as int]);
            let here: u16 = match &self.entries[i] {
                HelpEntry::Section(_) => 2,
                _ => 1,
            };
            rows = plus(rows, here);
            i = i + 1;
        }
        assert(self.entries@.take(self.entries@.len() as int) =~= self.entries@);
        rows
    }

    /// The keys the popup offers: scrolling only where there is something to
    /// scroll.
    pub open spec fn keys(self, theme: Theme) -> Seq<FooterEntry> {
        let close = FooterEntry { key: "Esc", verb: "close", style: theme::key_safe(&theme) };
        if self.hidden() > 0 {
            seq![FooterEntry { key: "j/k", verb: "scroll", style: theme::key(&theme) }, close]
        } else {
            seq![close]
        }
    }

    fn footer(&self, width: u16, theme: &Theme) -> (line: Line)
        ensures
            line@ == footer_line(self.keys(*theme), width, *theme),
    {
        let mut entries: Vec<FooterEntry> = Vec::new();
        if self.max_scroll() > 0 {
            entries.push(FooterEntry { key: "j/k", verb: "scroll", style: theme::key(theme) });
        }
        entries.push(FooterEntry { key: "Esc", verb: "close", style: theme::key_safe(theme) });
        assert(entries@ =~= self.keys(*theme));
        footer(&entries, width, theme)
    }

    fn max_scroll(&self) -> (rows: u16)
        ensures
            rows == self.hidden(),
    {
        minus(self.content, self.viewport)
    }

    /// Whether `view` is this popup as it is drawn into `area`, and `next` remembers how
    /// much of it showed.
    pub open spec fn is_drawn(
        self,
        area: Rect,
        theme: &Theme,
        view: Option<HelpView>,
        next: HelpComponent,
    ) -> bool {
        &&& next.entries == self.entries
        &&& area.is_empty() ==> view is None && next == self
        &&& !area.is_empty() ==> {
            let now = next;
            let outer = area.spec_within_border();
            let inner = inset_by(
                outer,
                lesser(gutter(outer.width), 2),
                if area.height >= 7 {
                    1
                } else {
                    0
                },
            );
            &&& now.content == total_rows(now.entries@)
            &&& now.viewport == rows_shown(area.height)
            &&& now.scroll == lesser(self.scroll, now.hidden())
            &&& view matches Some(v) && {
                &&& v.area == area
                &&& v.border == theme::border_focused(theme)
                &&& v.surface == theme::popup_surface(theme)
                &&& v.title@ == seq![
                    (" ? "@, theme::key(theme)),
                    ("Help "@, theme::title(theme)),
                ]
                &&& v.footer@ == footer_line(now.keys(*theme), area.width, *theme)
                &&& v.rows_area == inner
                &&& lines_of(v.rows@) == table_lines(
                    now.entries@,
                    diff(
                        inner.width,
                        if now.hidden() > 0 {
                            1
                        } else {
                            0
                        },
                    ),
                    *theme,
                )
                &&& v.scroll == now.scroll
                &&& v.bar_area == outer
                &&& v.bar == (if now.hidden() > 0 {
                    Some(
                        Bar {
                            content: now.content as usize,
                            position: now.scroll as usize,
                            viewport: now.viewport as usize,
                        },
                    )
                } else {
                    None
                })
            }
        }
    }

    /// Draws the reference into `area`, remembering how much of it showed so that
    /// the next key knows how far it may scroll.
    pub fn draw(&mut self, area: Rect, theme: &Theme) -> (view: Option<HelpView>)
        requires
            is_countable(area),
        ensures
            old(self).is_drawn(area, theme, view, *final(self)),
    {
        if area.is_empty() {
            return None;
        }
        self.content = self.row_count();
        self.viewport = minus(
            area.height,
            if area.height >= 7 {
                4
            } else {
                2
            },
        );
        self.scroll = min_u16(self.scroll, self.max_scroll());

        let mut title = Line::empty();
        title.push(" ? ", theme::key(theme));
        title.push("Help ", theme::title(theme));
        assert(title@ =~= seq![(" ? "@, theme::key(theme)), ("Help "@, theme::title(theme))]);

        let outer = area.within_border();
        let margin: u16 = if area.height >= 7 {
            1
        } else {
            0
        };
        let inner = inset(outer, min_u16(gutter(outer.width), 2), margin);
        let hidden: u16 = self.max_scroll();
        let rule_width: u16 = minus(
            inner.width,
            if hidden > 0 {
                1
            } else {
                0
            },
        );
        let rows = self.rows(rule_width, theme);
        Some(
            HelpView {
                area,
                border: theme::border_focused(theme),
                surface: theme::popup_surface(theme),
                title,
                footer: self.footer(area.width, theme),
                rows,
                rows_area: inner,
                scroll: self.scroll,
                bar: if hidden > 0 {
                    Some(
                        Bar {
                            content: self.content as usize,
                            position: self.scroll as usize,
                            viewport: self.viewport as usize,
                        },
                    )
                } else {
                    None
                },
                bar_area: outer,
            },
        )
    }

    /// The popup after a key.
    pub open spec fn after(self, action: Action) -> HelpComponent {
        HelpComponent {
            scroll: match action {
                Action::MoveDown => lesser(sum(self.scroll, 1), self.hidden()),
                Action::MoveUp => diff(self.scroll, 1),
                Action::GoFirst => 0,
                Action::GoLast => self.hidden(),
                _ => self.scroll,
            },
            ..self
        }
    }

    /// Moves the window over the table.
    pub fn handle_action(&mut self, action: Action) -> (state: EventState)
        ensures
            state == (if scrolls(action) {
                EventState::Consumed
            } else {
                EventState::NotConsumed
            }),
            *final(self) == old(self).after(action),
    {
        match action {
            Action::MoveDown => {
                self.scroll = min_u16(plus(self.scroll, 1), self.max_scroll());
                EventState::Consumed
            },
            Action::MoveUp => {
                self.scroll = minus(self.scroll, 1);
                EventState::Consumed
            },
            Action::GoFirst => {
                self.scroll = 0;
                EventState::Consumed
            },
            Action::GoLast => {
                self.scroll = self.max_scroll();
                EventState::Consumed
            },
            _ => EventState::NotConsumed,
        }
    }
}

/// How many lines a table takes, as far as sixteen bits count.
pub open spec fn total_rows(entries: Seq<HelpEntry>) -> u16
    decreases entries.len(),
{
    if entries.len() == 0 {
        0
    } else {
        sum(
            total_rows(entries.drop_last()),
            if entries.last() is Section {
                2
            } else {
                1
            },
        )
    }
}

/// A drawn table has exactly the lines that scrolling counts.
pub proof fn law_every_row_is_counted(entries: Seq<HelpEntry>, width: u16, theme: Theme)
    ensures
        table_lines(entries, width, theme).len() <= u16::MAX ==> total_rows(entries)
            == table_lines(entries, width, theme).len(),
        table_lines(entries, width, theme).len() > u16::MAX ==> total_rows(entries) == u16::MAX,
    decreases entries.len(),
{
    if entries.len() > 0 {
        law_every_row_is_counted(entries.drop_last(), width, theme);
    }
}

/// Scrolling never runs past the last row, whatever keys are pressed: a window
/// within the table stays within it, and every hidden row can be reached.
pub proof fn law_scrolling_stops_at_the_last_row(help: HelpComponent, action: Action)
    requires
        help.scroll <= help.hidden(),
    ensures
        help.after(action).scroll <= help.after(action).hidden(),
        help.hidden() + help.viewport >= help.content,
        help.scroll < help.hidden() ==> help.after(Action::MoveDown).scroll == help.scroll + 1,
        help.after(Action::GoLast).scroll == help.hidden(),
{
}

/// The keys of the list of spaces, the one layer that is no popup.
pub open spec fn worktrees_table() -> Seq<HelpEntry> {
    seq![
        HelpEntry::Section("Keybindings"),
        HelpEntry::bind("j / \u{2193}", "Move down"),
        HelpEntry::bind("k / \u{2191}", "Move up"),
        HelpEntry::bind("g / Home", "Go to first"),
        HelpEntry::bind("G / End", "Go to last"),
        HelpEntry::bind("i / /", "Enter filter mode"),
        HelpEntry::bind("Tab", "Toggle filter / list"),
        HelpEntry::bind("n", "New worktree (pick repo)"),
        HelpEntry::bind("p", "New worktree from PR URL"),
        HelpEntry::bind("P", "New worktree from PR URL (auto-clone)"),
        HelpEntry::bind("d", "Delete with confirmation"),
        HelpEntry::bind("D", "Delete (skips the question, not the guard)"),
        HelpEntry::bind("Enter", "Print path & exit"),
        HelpEntry::bind("? / F1", "Show this help"),
        HelpEntry::bind("q / Ctrl+C", "Quit"),
        HelpEntry::Blank,
        HelpEntry::Section("Filter mode"),
        HelpEntry::bind("Esc", "Leave filter mode"),
        HelpEntry::bind("Tab", "Toggle filter / list"),
        HelpEntry::bind("\u{2191} / Ctrl+K / Ctrl+P", "Move up in list"),
        HelpEntry::bind("\u{2193} / Ctrl+J / Ctrl+N", "Move down in list"),
        HelpEntry::bind("Backspace", "Delete filter character"),
        HelpEntry::bind("Enter", "Print path & exit"),
        HelpEntry::bind("F1", "Show this help"),
        HelpEntry::bind("Ctrl+C", "Quit"),
        HelpEntry::Blank,
        HelpEntry::Section("Space State \u{2014} upstream"),
        HelpEntry::bind("\u{2714}", "In sync with upstream"),
        HelpEntry::bind("\u{2191} / \u{2193} / \u{2195}", "Ahead / behind / diverged"),
        HelpEntry::bind("\u{2718}", "Upstream is gone (merged or deleted)"),
        HelpEntry::bind("\u{2b06}", "Never pushed"),
        HelpEntry::Blank,
        HelpEntry::Section("Space State \u{2014} local"),
        HelpEntry::bind("*", "Uncommitted changes (git)"),
        HelpEntry::bind("!", "Change has conflicts (jj)"),
        HelpEntry::bind("\u{2260}", "Change is divergent (jj)"),
        HelpEntry::bind("\u{2205}", "Working copy is empty (jj)"),
        HelpEntry::bind("\u{b7}", "Not checked yet"),
    ]
}

/// The keys of the list of spaces, the one layer that is no popup.
pub fn worktrees_bindings() -> (entries: Vec<HelpEntry>)
    ensures
        entries@ == worktrees_table(),
{
    let mut entries: Vec<HelpEntry> = Vec::new();
    entries.push(HelpEntry::Section("Keybindings"));
    entries.push(HelpEntry::bind("j / \u{2193}", "Move down"));
    entries.push(HelpEntry::bind("k / \u{2191}", "Move up"));
    entries.push(HelpEntry::bind("g / Home", "Go to first"));
    entries.push(HelpEntry::bind("G / End", "Go to last"));
    entries.push(HelpEntry::bind("i / /", "Enter filter mode"));
    entries.push(HelpEntry::bind("Tab", "Toggle filter / list"));
    entries.push(HelpEntry::bind("n", "New worktree (pick repo)"));
    entries.push(HelpEntry::bind("p", "New worktree from PR URL"));
    entries.push(HelpEntry::bind("P", "New worktree from PR URL (auto-clone)"));
    entries.push(HelpEntry::bind("d", "Delete with confirmation"));
    entries.push(HelpEntry::bind("D", "Delete (skips the question, not the guard)"));
    entries.push(HelpEntry::bind("Enter", "Print path & exit"));
    entries.push(HelpEntry::bind("? / F1", "Show this help"));
    entries.push(HelpEntry::bind("q / Ctrl+C", "Quit"));
    entries.push(HelpEntry::Blank);
    entries.push(HelpEntry::Section("Filter mode"));
    entries.push(HelpEntry::bind("Esc", "Leave filter mode"));
    entries.push(HelpEntry::bind("Tab", "Toggle filter / list"));
    entries.push(HelpEntry::bind("\u{2191} / Ctrl+K / Ctrl+P", "Move up in list"));
    entries.push(HelpEntry::bind("\u{2193} / Ctrl+J / Ctrl+N", "Move down in list"));
    entries.push(HelpEntry::bind("Backspace", "Delete filter character"));
    entries.push(HelpEntry::bind("Enter", "Print path & exit"));
    entries.push(HelpEntry::bind("F1", "Show this help"));
    entries.push(HelpEntry::bind("Ctrl+C", "Quit"));
    entries.push(HelpEntry::Blank);
    entries.push(HelpEntry::Section("Space State \u{2014} upstream"));
    entries.push(HelpEntry::bind("\u{2714}", "In sync with upstream"));
    entries.push(HelpEntry::bind("\u{2191} / \u{2193} / \u{2195}", "Ahead / behind / diverged"));
    entries.push(HelpEntry::bind("\u{2718}", "Upstream is gone (merged or deleted)"));
    entries.push(HelpEntry::bind("\u{2b06}", "Never pushed"));
    entries.push(HelpEntry::Blank);
    entries.push(HelpEntry::Section("Space State \u{2014} local"));
    entries.push(HelpEntry::bind("*", "Uncommitted changes (git)"));
    entries.push(HelpEntry::bind("!", "Change has conflicts (jj)"));
    entries.push(HelpEntry::bind("\u{2260}", "Change is divergent (jj)"));
    entries.push(HelpEntry::bind("\u{2205}", "Working copy is empty (jj)"));
    entries.push(HelpEntry::bind("\u{b7}", "Not checked yet"));
    assert(entries@ =~= worktrees_table());
    entries
}

/// A key that has a hint stands in the footer of its own section, at its own place,
/// behind those that stand before it in the table; nothing else does.
pub proof fn law_a_hint_stands_in_its_own_section(
    entries: Seq<HelpEntry>,
    last: HelpEntry,
    section: Seq<char>,
    place: Place,
    theme: Theme,
)
    ensures
        hints(Seq::<HelpEntry>::empty(), section, place, theme).len() == 0,
        last matches HelpEntry::Binding(b) ==> {
            let before = hints(entries, section, place, theme);
            let after = hints(entries.push(last), section, place, theme);
            let shown = b.hint is Some && b.place == place && heading(entries) == Some(section);
            &&& !shown ==> after == before
            &&& shown ==> after.len() == before.len() + 1 && after.drop_last() == before
                && after.last().key == (b.hint->0).0 && after.last().verb == (b.hint->0).1
        },
        !(last is Binding) ==> hints(entries.push(last), section, place, theme) == hints(
            entries,
            section,
            place,
            theme,
        ),
        last matches HelpEntry::Section(title) ==> heading(entries.push(last)) == Some(title@),
        !(last is Section) ==> heading(entries.push(last)) == heading(entries),
        heading(Seq::<HelpEntry>::empty()) is None,
{
    assert(entries.push(last).drop_last() =~= entries);
    if let HelpEntry::Binding(b) = last {
        if b.hint is Some && b.place == place && heading(entries) == Some(section) {
            assert(hints(entries.push(last), section, place, theme).drop_last() =~= hints(
                entries,
                section,
                place,
                theme,
            ));
        }
    }
}

/// In a footer what can be spared comes first, which is where a narrow one is cut,
/// and what must survive comes last.
pub proof fn law_what_must_survive_comes_last(
    entries: Seq<HelpEntry>,
    section: Seq<char>,
    theme: Theme,
)
    ensures
        footer_of(entries, section, theme) == hints(entries, section, Place::Aside, theme) + hints(
            entries,
            section,
            Place::Ordinary,
            theme,
        ) + hints(entries, section, Place::Essential, theme),
{
}

/// A way out is coloured as safe, and a key that loses something as destructive.
pub proof fn law_a_hint_is_coloured_by_what_it_does(b: Binding, theme: Theme)
    ensures
        b.loudness == Loudness::Safe ==> footer_entry(b, theme).style == theme::key_safe(&theme),
        b.loudness == Loudness::Destructive ==> footer_entry(b, theme).style
            == theme::key_destructive(&theme),
        b.loudness == Loudness::Plain ==> footer_entry(b, theme).style == theme::key(&theme),
{
}

/// A row of the reference shows a key in a column of its own, and beside it what
/// the key does; a heading brings a rule and an empty line with it.
pub proof fn law_a_row_shows_a_key_and_what_it_does(entry: HelpEntry, width: u16, theme: Theme)
    ensures
        entry matches HelpEntry::Binding(b) ==> {
            let row = entry_lines(entry, width, theme);
            &&& row.len() == 1
            &&& row[0][0].0.take(b.key@.len() as int) == b.key@
            &&& b.key@.len() < 11 ==> row[0][0].0.len() == 12
            &&& b.key@.len() >= 11 ==> row[0][0].0.len() == b.key@.len() + 1
            &&& row[0][1].0 == b.desc@
        },
        entry matches HelpEntry::Section(title) ==> {
            let row = entry_lines(entry, width, theme);
            &&& row.len() == 2
            &&& row[0][0].0 == title@
            &&& row[1].len() == 0
        },
        entry is Blank ==> entry_lines(entry, width, theme) == seq![
            Seq::<(Seq<char>, Style)>::empty(),
        ],
{
    if let HelpEntry::Binding(b) = entry {
        assert(key_text(b.key@).take(b.key@.len() as int) =~= b.key@);
    }
}

/// Every row of the table is drawn, in order.
pub proof fn law_every_row_is_drawn(
    entries: Seq<HelpEntry>,
    last: HelpEntry,
    width: u16,
    theme: Theme,
)
    ensures
        table_lines(entries.push(last), width, theme) == table_lines(entries, width, theme)
            + entry_lines(last, width, theme),
        table_lines(Seq::<HelpEntry>::empty(), width, theme).len() == 0,
{
    assert(entries.push(last).drop_last() =~= entries);
}

/// The window over the table moves by one row, or to an end, and never past the
/// last row.
pub proof fn law_the_window_moves_row_by_row(help: HelpComponent, action: Action)
    requires
        help.scroll <= help.hidden(),
    ensures
        ({
            let at = help.after(action).scroll;
            &&& action is MoveDown && help.scroll < help.hidden() ==> at == help.scroll + 1
            &&& action is MoveDown && help.scroll == help.hidden() ==> at == help.scroll
            &&& action is MoveUp && help.scroll > 0 ==> at == help.scroll - 1
            &&& action is MoveUp && help.scroll == 0 ==> at == 0
            &&& action is GoFirst ==> at == 0
            &&& action is GoLast ==> at == help.hidden()
            &&& !scrolls(action) ==> at == help.scroll
            &&& scrolls(action) <==> action is MoveDown || action is MoveUp || action is GoFirst
                || action is GoLast
        }),
        help.content >= help.viewport ==> help.hidden() == help.content - help.viewport,
        help.content < help.viewport ==> help.hidden() == 0,
{
}

/// The reference is as wide as its widest row wants to be.
pub proof fn law_no_row_is_wider_than_the_widest(entries: Seq<HelpEntry>)
    ensures
        forall|i: int|
            0 <= i < entries.len() ==> entry_width(#[trigger] entries[i]) <= widest(entries),
        entries.len() > 0 ==> exists|i: int|
            0 <= i < entries.len() && entry_width(#[trigger] entries[i]) == widest(entries),
    decreases entries.len(),
{
    if entries.len() > 0 {
        let rest = entries.drop_last();
        let n = entries.len() - 1;
        law_no_row_is_wider_than_the_widest(rest);
        assert forall|i: int| 0 <= i < n implies rest[i] == #[trigger] entries[i] by {}
        assert(entries[n] == entries.last());
        if rest.len() > 0 {
            let i = choose|i: int|
                0 <= i < rest.len() && entry_width(#[trigger] rest[i]) == widest(rest);
            assert(entries[i] == rest[i]);
        }
    }
}

/// A drawn reference holds the whole table, from the row it was scrolled to, and has
/// a bar exactly where there is more than it shows.
pub proof fn law_a_drawn_reference_holds_the_table(
    help: HelpComponent,
    area: Rect,
    theme: Theme,
    view: Option<HelpView>,
    next: HelpComponent,
)
    requires
        help.is_drawn(area, &theme, view, next),
    ensures
        view is None <==> area.is_empty(),
        next.entries == help.entries,
        view matches Some(v) ==> {
            &&& v.scroll == next.scroll
            &&& next.scroll <= next.hidden()
            &&& help.scroll <= next.hidden() ==> next.scroll == help.scroll
            &&& v.bar is Some <==> next.hidden() > 0
            &&& area.height >= 7 ==> next.viewport == area.height - 4
            &&& 2 <= area.height < 7 ==> next.viewport == area.height - 2
            &&& next.content == total_rows(help.entries@)
        },
{
}

} // verus!
