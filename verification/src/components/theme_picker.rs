//! Choosing a colour scheme, judged on the real interface: moving the cursor
//! puts the scheme under it in force.

use vstd::prelude::*;

use crate::components::help::{footer_entries, footer_of, HelpEntry, KEYS_SECTION};
use crate::components::list::{moved, step, ItemOrder};
use crate::components::modal::{is_countable, popup_area, popup_in, Extent};
use crate::components::picker::{picker_areas, PickerView};
use crate::components::prompt::{footer, footer_line};
use crate::components::{Action, EventState};
use crate::screen::{lines_of, push_line, Line, Rect};
use crate::text::concat;
use crate::theme::scheme::{all, entry, is_entry, Scheme, COUNT};
use crate::theme::{self, Style, Theme};

verus! {

/// What the picker made of a key.
#[derive(Debug, PartialEq, Eq)]
pub enum Pick {
    Consumed,
    Ignored,
    Close,
    /// Close, and write this name to the configuration file.
    Save(&'static str),
}

/// The picker.
#[derive(Debug)]
pub struct ThemeModal {
    pub schemes: Vec<Scheme>,
    pub selected_index: usize,
    /// The palette in force when the popup opened.
    pub original: Theme,
}

/// The first entry of the catalogue from `i` on whose palette is `theme`, or the
/// first of all.
pub open spec fn entry_of(theme: Theme, i: int) -> int
    decreases COUNT - i,
{
    if i < 0 || i >= COUNT {
        0
    } else if entry(i).3 == theme {
        i
    } else {
        entry_of(theme, i + 1)
    }
}

/// One row: the label, then what the scheme looks like.
pub open spec fn scheme_line(i: int, theme: Theme) -> Seq<(Seq<char>, Style)> {
    seq![
        (entry(i).1, theme::text(&theme)),
        ("  "@ + entry(i).2.label()@, theme::muted(&theme)),
    ]
}

/// What is said when a scheme could not be written down.
pub open spec fn unsaved(name: Seq<char>, error: Seq<char>) -> Seq<char> {
    name + " is active but could not be saved: "@ + error
}

/// What is said when a scheme could not be written down: it costs the next run,
/// not this one.
pub fn unsaved_text(name: &str, error: &str) -> (text: String)
    ensures
        text@ == unsaved(name@, error@),
{
    let mut text = concat(name, " is active but could not be saved: ");
    text.append(error);
    text
}

impl ThemeModal {
    /// The picker offers the catalogue, and the cursor is on one of it.
    pub open spec fn wf(self) -> bool {
        &&& self.schemes@.len() == COUNT
        &&& forall|i: int| 0 <= i < COUNT ==> is_entry(#[trigger] self.schemes@[i], i)
        &&& self.selected_index < COUNT
    }

    /// Opens on the scheme that is in force, found by its palette.
    pub fn new(current: &Theme) -> (picker: ThemeModal)
        ensures
            picker.wf(),
            picker.selected_index == entry_of(*current, 0),
            picker.original == *current,
    {
        let schemes = all();
        let mut i: usize = 0;
        while i < schemes.len()
            invariant
                schemes@.len() == COUNT,
                forall|k: int| 0 <= k < COUNT ==> is_entry(#[trigger] schemes@[k], k),
                i <= COUNT,
                entry_of(*current, 0) == entry_of(*current, i as int),
            decreases schemes.len() - i,
        {
            assert(is_entry(schemes@[i as int], i as int));
            if schemes[i].theme() == *current {
                return ThemeModal { schemes, selected_index: i, original: *current };
            }
            i = i + 1;
        }
        ThemeModal { schemes, selected_index: 0, original: *current }
    }

    /// The scheme the cursor is on.
    pub fn selected_scheme(&self) -> (scheme: &Scheme)
        requires
            self.wf(),
        ensures
            is_entry(*scheme, self.selected_index as int),
    {
        &self.schemes[self.selected_index]
    }

    /// Where the popup sits inside the frame: every scheme is visible at once.
    pub fn area(&self, full: Rect) -> (area: Rect)
        requires
            is_countable(full),
        ensures
            area == popup_in(
                full,
                Extent::share(45, 34, 60),
                Extent::fixed((COUNT + 3) as u16),
            ),
    {
        popup_area(full, Extent::share(45, 34, 60), Extent::fixed(COUNT as u16 + 3))
    }

    /// The popup as it is drawn into `area`, or nothing where there is no room.
    pub fn draw(&self, area: Rect, theme: &Theme) -> (view: Option<PickerView>)
        requires
            self.wf(),
            is_countable(area),
        ensures
            view is None <==> area.is_empty(),
            view matches Some(v) ==> {
                let inner = area.spec_within_border();
                &&& v.area == area
                &&& v.border == theme::border_focused(theme)
                &&& v.surface == theme::popup_surface(theme)
                &&& v.title@ == seq![
                    (" \u{25b8} "@, theme::key(theme)),
                    ("Colour Scheme "@, theme::title(theme)),
                ]
                &&& v.footer@ == footer_line(
                    footer_of(theme_table(), KEYS_SECTION@, *theme),
                    area.width,
                    *theme,
                )
                &&& v.prompt@ == seq![
                    (" Preview as you move; Enter saves it"@, theme::secondary(theme)),
                ]
                &&& lines_of(v.rows@) == Seq::new(
                    COUNT as nat,
                    |i: int| scheme_line(i, *theme),
                )
                &&& v.empty is None
                &&& v.row_style == theme::text(theme)
                &&& v.highlight == theme::selected_row(theme)
                &&& v.marker == "\u{25b8} "
                &&& v.selected == Some(self.selected_index)
                &&& !v.scrolls
                &&& v.bar == theme::rule(theme)
                &&& v.note is None && v.note_area is None
                &&& inner.holds(v.prompt_area) && inner.holds(v.list_area)
                &&& inner.height >= 2 ==> {
                    &&& v.prompt_area == (Rect { height: 1, ..inner })
                    &&& v.list_area == (Rect {
                        y: (inner.y + 1) as u16,
                        height: (inner.height - 1) as u16,
                        ..inner
                    })
                }
            },
    {
        if area.is_empty() {
            return None;
        }
        let mut title = Line::empty();
        title.push(" \u{25b8} ", theme::key(theme));
        title.push("Colour Scheme ", theme::title(theme));
        assert(title@ =~= seq![
            (" \u{25b8} "@, theme::key(theme)),
            ("Colour Scheme "@, theme::title(theme)),
        ]);
        let bindings = theme_bindings();
        let entries = footer_entries(&bindings, KEYS_SECTION, theme);
        let inner = area.within_border();
        let (prompt_area, list_area, note_area) = picker_areas(inner, false);

        let ghost wanted = Seq::new(COUNT as nat, |i: int| scheme_line(i, *theme));
        let mut rows: Vec<Line> = Vec::new();
        let mut i: usize = 0;
        assert(lines_of(rows@) =~= wanted.take(0));
        while i < self.schemes.len()
            invariant
                self.wf(),
                i <= self.schemes@.len(),
                wanted == Seq::new(COUNT as nat, |i: int| scheme_line(i, *theme)),
                lines_of(rows@) == wanted.take(i as int),
            decreases self.schemes.len() - i,
        {
            let scheme = &self.schemes[i];
            assert(is_entry(*scheme, i as int));
            let mut line = Line::empty();
            line.push(scheme.label, theme::text(theme));
            let look = concat("  ", scheme.appearance.label());
            line.push(look.as_str(), theme::muted(theme));
            assert(line@ =~= scheme_line(i as int, *theme));
            push_line(&mut rows, line);
            assert(lines_of(rows@) =~= wanted.take(i + 1));
            i = i + 1;
        }
        assert(lines_of(rows@) =~= wanted);
        Some(
            PickerView {
                area,
                border: theme::border_focused(theme),
                surface: theme::popup_surface(theme),
                title,
                footer: footer(&entries, area.width, theme),
                prompt: Line::styled(
                    " Preview as you move; Enter saves it",
                    theme::secondary(theme),
                ),
                prompt_area,
                rows,
                empty: None,
                list_area,
                row_style: theme::text(theme),
                highlight: theme::selected_row(theme),
                marker: "\u{25b8} ",
                selected: Some(self.selected_index),
                scrolls: false,
                bar: theme::rule(theme),
                note: None,
                note_area,
            },
        )
    }

    /// What a key does to the cursor.
    pub open spec fn moved_by(self, action: Action) -> Option<usize> {
        match action {
            Action::MoveDown => moved(ItemOrder::Next, Some(self.selected_index), COUNT as nat),
            Action::MoveUp => moved(ItemOrder::Previous, Some(self.selected_index), COUNT as nat),
            Action::GoFirst => moved(ItemOrder::First, Some(self.selected_index), COUNT as nat),
            Action::GoLast => moved(ItemOrder::Last, Some(self.selected_index), COUNT as nat),
            _ => None,
        }
    }

    /// Moves the cursor and puts what it lands on in force.
    pub fn handle_action(&mut self, action: Action, current: &mut Theme) -> (state: EventState)
        requires
            old(self).wf(),
        ensures
            final(self).wf(),
            match old(self).moved_by(action) {
                Some(i) => {
                    &&& state is Consumed
                    &&& *final(self) == (ThemeModal { selected_index: i, ..*old(self) })
                    &&& *final(current) == entry(i as int).3
                },
                None => {
                    &&& state is NotConsumed
                    &&& *final(self) == *old(self)
                    &&& *final(current) == *old(current)
                },
            },
    {
        let order = match action {
            Action::MoveDown => ItemOrder::Next,
            Action::MoveUp => ItemOrder::Previous,
            Action::GoFirst => ItemOrder::First,
            Action::GoLast => ItemOrder::Last,
            _ => {
                return EventState::NotConsumed;
            },
        };
        if let Some(i) = step(order, Some(self.selected_index), self.schemes.len()) {
            self.selected_index = i;
        }
        *current = self.selected_scheme().theme();
        EventState::Consumed
    }

    /// What a key comes to.
    pub open spec fn answer(self, action: Action, pick: Pick) -> bool {
        match action {
            Action::Select => pick matches Pick::Save(name) && name@ == entry(
                self.selected_index as int,
            ).0,
            Action::ClosePopup | Action::ExitInsertMode => pick is Close,
            _ => if self.moved_by(action) is Some {
                pick is Consumed
            } else {
                pick is Ignored
            },
        }
    }

    /// Acts on a key: every way out but Enter puts back the palette that was in
    /// force before.
    pub fn handle(&mut self, action: Action, current: &mut Theme) -> (pick: Pick)
        requires
            old(self).wf(),
        ensures
            final(self).wf(),
            old(self).answer(action, pick),
            *final(self) == (ThemeModal {
                selected_index: match old(self).moved_by(action) {
                    Some(i) => i,
                    None => old(self).selected_index,
                },
                ..*old(self)
            }),
            *final(current) == (match action {
                Action::ClosePopup | Action::ExitInsertMode => old(self).original,
                _ => match old(self).moved_by(action) {
                    Some(i) => entry(i as int).3,
                    None => *old(current),
                },
            }),
    {
        match action {
            Action::Select => Pick::Save(self.selected_scheme().name),
            Action::ClosePopup | Action::ExitInsertMode => {
                *current = self.original;
                Pick::Close
            },
            _ => match self.handle_action(action, current) {
                EventState::Consumed => Pick::Consumed,
                _ => Pick::Ignored,
            },
        }
    }
}

/// The picker opens on the scheme in force, if the catalogue has it: the first
/// step is then a step away from it.
pub proof fn law_it_opens_on_the_active_scheme(theme: Theme, i: int)
    requires
        0 <= i < COUNT,
        entry(i).3 == theme,
    ensures
        entry(entry_of(theme, 0)).3 == theme,
        0 <= entry_of(theme, 0) <= i,
{
    lemma_entry_of(theme, 0, i);
}

proof fn lemma_entry_of(theme: Theme, from: int, i: int)
    requires
        0 <= from <= i < COUNT,
        entry(i).3 == theme,
    ensures
        from <= entry_of(theme, from) <= i,
        entry(entry_of(theme, from)).3 == theme,
    decreases i - from,
{
    if entry(from).3 != theme {
        lemma_entry_of(theme, from + 1, i);
    }
}

/// The keys of the picker.
pub open spec fn theme_table() -> Seq<HelpEntry> {
    seq![
        HelpEntry::Section(KEYS_SECTION),
        HelpEntry::bind("j / \u{2193}", "Move down (previews the scheme)").hint("j/k", "preview"),
        HelpEntry::bind("k / \u{2191}", "Move up (previews the scheme)"),
        HelpEntry::bind("g / Home", "Go to first"),
        HelpEntry::bind("G / End", "Go to last"),
        HelpEntry::bind("Enter", "Keep it and save it to the config file").hint("Enter", "save"),
        HelpEntry::bind("? / F1", "Show this help").hint("?", "help").aside(),
        HelpEntry::bind("Esc", "Cancel and restore the previous scheme").hint("Esc", "cancel").safe().essential(),
        HelpEntry::bind("q / Ctrl+C", "Quit"),
    ]
}

/// The keys of the picker.
pub fn theme_bindings() -> (entries: Vec<HelpEntry>)
    ensures
        entries@ == theme_table(),
{
    let mut entries: Vec<HelpEntry> = Vec::new();
    entries.push(HelpEntry::Section(KEYS_SECTION));
    entries.push(HelpEntry::bind("j / \u{2193}", "Move down (previews the scheme)").hint("j/k", "preview"));
    entries.push(HelpEntry::bind("k / \u{2191}", "Move up (previews the scheme)"));
    entries.push(HelpEntry::bind("g / Home", "Go to first"));
    entries.push(HelpEntry::bind("G / End", "Go to last"));
    entries.push(HelpEntry::bind("Enter", "Keep it and save it to the config file").hint("Enter", "save"));
    entries.push(HelpEntry::bind("? / F1", "Show this help").hint("?", "help").aside());
    entries.push(HelpEntry::bind("Esc", "Cancel and restore the previous scheme").hint("Esc", "cancel").safe().essential());
    entries.push(HelpEntry::bind("q / Ctrl+C", "Quit"));
    assert(entries@ =~= theme_table());
    entries
}

/// Enter keeps the scheme the cursor is on, under the name it is configured by;
/// nothing else saves anything.
pub proof fn law_enter_saves_the_scheme_under_the_cursor(
    picker: ThemeModal,
    action: Action,
    pick: Pick,
)
    requires
        picker.wf(),
        picker.answer(action, pick),
    ensures
        pick is Save <==> action is Select,
        pick matches Pick::Save(name) ==> name@ == picker.schemes@[
            picker.selected_index as int
        ].name@,
        pick is Close <==> action is ClosePopup || action is ExitInsertMode,
{
    assert(is_entry(
        picker.schemes@[picker.selected_index as int],
        picker.selected_index as int,
    ));
}

/// The keys of the picker move the cursor one row, or to an end.
pub proof fn law_the_schemes_are_gone_through_row_by_row(picker: ThemeModal, action: Action)
    requires
        picker.wf(),
    ensures
        ({
            let i = picker.selected_index;
            let at = picker.moved_by(action);
            &&& action is MoveDown ==> at == Some(if i + 1 < COUNT {
                (i + 1) as usize
            } else {
                i
            })
            &&& action is MoveUp ==> at == Some(if i > 0 {
                (i - 1) as usize
            } else {
                0
            })
            &&& action is GoFirst ==> at == Some(0usize)
            &&& action is GoLast ==> at == Some((COUNT - 1) as usize)
            &&& !(action is MoveDown || action is MoveUp || action is GoFirst
                || action is GoLast) ==> at is None
        }),
{
}

/// A scheme that could not be written down is in force all the same, and both are
/// told.
pub proof fn law_an_unsaved_scheme_is_told_of(name: Seq<char>, error: Seq<char>)
    ensures
        unsaved(name, error) == name + " is active but could not be saved: "@ + error,
{
}

/// A row of the picker shows what a scheme is called and whether it is dark, light,
/// or the terminal's own.
pub proof fn law_a_row_shows_a_scheme(i: int, theme: Theme)
    requires
        0 <= i < COUNT,
    ensures
        scheme_line(i, theme).len() == 2,
        scheme_line(i, theme)[0].0 == entry(i).1,
        scheme_line(i, theme)[1].0 == "  "@ + entry(i).2.label()@,
{
}

} // verus!
