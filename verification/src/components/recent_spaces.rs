//! The jump list: every space of every repository, newest commit first.

use vstd::prelude::*;

use crate::components::help::{footer_entries, footer_of, HelpEntry, KEYS_SECTION};
use crate::components::list::{moved, step, ItemOrder};
use crate::components::modal::{is_countable, popup_area, popup_in, Extent};
use crate::components::picker::{picker_areas, PickerView};
use crate::components::prompt::{footer, footer_line, line_view};
use crate::components::worktrees::row::SpaceEntry;
use crate::components::{Action, EventState};
use crate::order::{arrange, arranged, ints, law_arranged, text_before, NameRank, Rank, RecentRank};
use crate::screen::{lines_of, plus, push_line, sum, Line, Rect};
use crate::text::{concat, pad_front, padded_front, same_text};
use crate::theme::{self, Style, Theme};
use crate::vcs::{age_of, elapsed, subject_shown};

verus! {

/// What the list made of a key.
#[derive(Debug, PartialEq, Eq)]
pub enum Jump {
    Consumed,
    Ignored,
    Close,
    /// Go to the space at this path.
    SelectSpace(String),
}

/// The jump list.
#[derive(Debug, PartialEq, Eq)]
pub struct RecentSpacesModal {
    pub entries: Vec<SpaceEntry>,
    pub selected_index: usize,
}

/// What a space is listed by.
pub open spec fn recent_key(entry: SpaceEntry) -> RecentRank {
    RecentRank {
        committed_at: match entry.space.tip {
            Some(tip) => Some(tip.committed_at),
            None => None,
        },
        names: NameRank { repo: entry.repo_name, name: entry.space.name },
    }
}

/// What spaces are listed by.
pub open spec fn recent_keys(entries: Seq<SpaceEntry>) -> Seq<Option<RecentRank>> {
    entries.map_values(|entry: SpaceEntry| Some(recent_key(entry)))
}

/// The spaces, newest commit first.
pub open spec fn by_recency(entries: Seq<SpaceEntry>) -> Seq<SpaceEntry> {
    arranged(recent_keys(entries)).map_values(|i: int| entries[i])
}

/// One row: the age, the repository, the space unless it is the repository's own
/// working copy, and the commit.
pub open spec fn recent_line(entry: SpaceEntry, now: i64, theme: Theme) -> Seq<(Seq<char>, Style)> {
    let age = match entry.space.tip {
        Some(tip) => age_of(elapsed(tip.committed_at, now)),
        None => "\u{2014}"@,
    };
    let subject = match entry.space.tip {
        Some(tip) => subject_shown(tip.subject@),
        None => "(no commits yet)"@,
    };
    seq![
        (padded_front(age, 3) + " "@, theme::secondary(&theme)),
        (entry.repo_name@, theme::secondary(&theme)),
    ] + (if entry.is_own_copy() {
        Seq::empty()
    } else {
        seq![
            (" \u{203a} "@, theme::muted(&theme)),
            (entry.space.name@, theme::text(&theme).bold()),
        ]
    }) + seq![("  "@, theme::muted(&theme)), (subject, theme::muted(&theme))]
}

fn recent_row(entry: &SpaceEntry, now: i64, theme: &Theme) -> (line: Line)
    ensures
        line@ == recent_line(*entry, now, *theme),
{
    let (age, subject) = match &entry.space.tip {
        Some(tip) => (tip.age(now), tip.subject_or_placeholder()),
        None => ("\u{2014}".to_owned(), "(no commits yet)".to_owned()),
    };
    let mut line = Line::empty();
    let column = concat(pad_front(age.as_str(), 3).as_str(), " ");
    line.push(column.as_str(), theme::secondary(theme));
    line.push(entry.repo_name.as_str(), theme::secondary(theme));
    if !same_text(entry.space.path.as_str(), entry.repo_path.as_str()) {
        line.push(" \u{203a} ", theme::muted(theme));
        line.push(entry.space.name.as_str(), theme::text(theme).bold());
    }
    line.push("  ", theme::muted(theme));
    line.push(subject.as_str(), theme::muted(theme));
    assert(line@ =~= recent_line(*entry, now, *theme));
    line
}

impl RecentSpacesModal {
    /// The cursor is on an entry, if there is one.
    pub open spec fn wf(self) -> bool {
        self.entries@.len() > 0 ==> self.selected_index < self.entries@.len()
    }

    /// Lists a snapshot of every known space by recency.
    pub fn new(entries: Vec<SpaceEntry>) -> (list: RecentSpacesModal)
        ensures
            list.wf(),
            list.entries@ == by_recency(entries@),
            list.selected_index == 0,
    {
        let ghost wanted = recent_keys(entries@);
        let mut keys: Vec<Option<RecentRank>> = Vec::new();
        let mut i: usize = 0;
        while i < entries.len()
            invariant
                wanted == recent_keys(entries@),
                i <= entries@.len(),
                keys@ == wanted.take(i as int),
            decreases entries.len() - i,
        {
            let entry = &entries[i];
            let committed_at = match &entry.space.tip {
                Some(tip) => Some(tip.committed_at),
                None => None,
            };
            let names = NameRank { repo: entry.repo_name.clone(), name: entry.space.name.clone() };
            keys.push(Some(RecentRank { committed_at, names }));
            assert(keys@ =~= wanted.take(i + 1));
            i = i + 1;
        }
        assert(keys@ =~= wanted);
        let order = arrange(&keys);
        let ghost sorted = by_recency(entries@);
        assert(ints(order@).len() == order@.len());
        let mut listed: Vec<SpaceEntry> = Vec::new();
        let mut i: usize = 0;
        while i < order.len()
            invariant
                i <= order@.len(),
                sorted == ints(order@).map_values(|i: int| entries@[i]),
                forall|k: int| 0 <= k < order@.len() ==> #[trigger] order@[k] < entries@.len(),
                listed@ == sorted.take(i as int),
            decreases order.len() - i,
        {
            assert(ints(order@)[i as int] == order@[i as int]);
            listed.push(entries[order[i]].clone());
            assert(listed@ =~= sorted.take(i + 1));
            i = i + 1;
        }
        assert(listed@ =~= sorted);
        RecentSpacesModal { entries: listed, selected_index: 0 }
    }

    /// The rows the popup makes room for: at least one and at most sixteen.
    pub open spec fn rows_wanted(self) -> u16 {
        let n = self.entries@.len();
        if n < 1 {
            1
        } else if n > 16 {
            16
        } else {
            n as u16
        }
    }

    /// Where the popup sits inside the frame.
    pub fn area(&self, full: Rect) -> (area: Rect)
        requires
            is_countable(full),
        ensures
            area == popup_in(
                full,
                Extent::share(80, 50, 140),
                Extent::fixed(sum(self.rows_wanted(), 4)),
            ),
    {
        let n: usize = self.entries.len();
        let rows: u16 = if n < 1 {
            1
        } else if n > 16 {
            16
        } else {
            n as u16
        };
        popup_area(full, Extent::share(80, 50, 140), Extent::fixed(plus(rows, 4)))
    }

    /// The rows as they are drawn.
    pub open spec fn row_lines(self, now: i64, theme: Theme) -> Seq<Seq<(Seq<char>, Style)>> {
        self.entries@.map_values(|entry: SpaceEntry| recent_line(entry, now, theme))
    }

    /// The popup as it is drawn into `area` at the time `now`, in seconds, or
    /// nothing where there is no room.
    pub fn draw(&self, area: Rect, now: i64, theme: &Theme) -> (view: Option<PickerView>)
        requires
            is_countable(area),
        ensures
            view is None <==> area.is_empty(),
            view matches Some(v) ==> {
                let inner = area.spec_within_border();
                &&& v.area == area
                &&& v.border == theme::border_focused(theme)
                &&& v.surface == theme::popup_surface(theme)
                &&& v.title@ == seq![
                    (" \u{25b8} "@, theme::key(theme)),
                    ("Recent Spaces "@, theme::title(theme)),
                ]
                &&& v.footer@ == footer_line(
                    footer_of(recent_spaces_table(), KEYS_SECTION@, *theme),
                    area.width,
                    *theme,
                )
                &&& v.prompt@ == seq![
                    (" Every repository, newest commit first"@, theme::secondary(theme)),
                ]
                &&& lines_of(v.rows@) == self.row_lines(now, *theme)
                &&& line_view(v.empty) == (if self.entries@.len() == 0 {
                    Some(seq![(" No spaces yet"@, theme::muted(theme))])
                } else {
                    None
                })
                &&& v.row_style == theme::text(theme)
                &&& v.highlight == theme::selected_row(theme)
                &&& v.marker == "\u{25b8} "
                &&& v.selected == (if self.entries@.len() == 0 {
                    None
                } else {
                    Some(self.selected_index)
                })
                &&& v.scrolls == (self.entries@.len() > v.list_area.height
                    && self.entries@.len() > 0)
                &&& v.bar == theme::rule(theme)
                &&& v.note is None && v.note_area is None
                &&& inner.holds(v.prompt_area) && inner.holds(v.list_area)
                &&& inner.height >= 2 ==> {
                    &&& v.prompt_area == (Rect { height: 1, ..inner })
                    &&& v.list_area == (Rect {
                        y: (inner.y + 1) as u16,
                        height: (inner.height - 1) as u16,
                        ..inner
                    })
                }
            },
    {
        if area.is_empty() {
            return None;
        }
        let mut title = Line::empty();
        title.push(" \u{25b8} ", theme::key(theme));
        title.push("Recent Spaces ", theme::title(theme));
        assert(title@ =~= seq![
            (" \u{25b8} "@, theme::key(theme)),
            ("Recent Spaces "@, theme::title(theme)),
        ]);
        let bindings = recent_spaces_bindings();
        let entries = footer_entries(&bindings, KEYS_SECTION, theme);
        let inner = area.within_border();
        let (prompt_area, list_area, note_area) = picker_areas(inner, false);

        let ghost wanted = self.row_lines(now, *theme);
        let mut rows: Vec<Line> = Vec::new();
        let mut i: usize = 0;
        assert(lines_of(rows@) =~= wanted.take(0));
        while i < self.entries.len()
            invariant
                i <= self.entries@.len(),
                wanted == self.row_lines(now, *theme),
                lines_of(rows@) == wanted.take(i as int),
            decreases self.entries.len() - i,
        {
            let line = recent_row(&self.entries[i], now, theme);
            push_line(&mut rows, line);
            assert(wanted[i as int] == line@);
            assert(lines_of(rows@) =~= wanted.take(i + 1));
            i = i + 1;
        }
        assert(lines_of(rows@) =~= wanted);
        let total: usize = self.entries.len();
        let empty = if total == 0 {
            Some(Line::styled(" No spaces yet", theme::muted(theme)))
        } else {
            None
        };
        Some(
            PickerView {
                area,
                border: theme::border_focused(theme),
                surface: theme::popup_surface(theme),
                title,
                footer: footer(&entries, area.width, theme),
                prompt: Line::styled(
                    " Every repository, newest commit first",
                    theme::secondary(theme),
                ),
                prompt_area,
                rows,
                empty,
                list_area,
                row_style: theme::text(theme),
                highlight: theme::selected_row(theme),
                marker: "\u{25b8} ",
                selected: if total == 0 {
                    None
                } else {
                    Some(self.selected_index)
                },
                scrolls: total > 0 && total > list_area.height as usize,
                bar: theme::rule(theme),
                note: None,
                note_area,
            },
        )
    }

    /// What a key does to the cursor.
    pub open spec fn moved_by(self, action: Action) -> Option<usize> {
        match action {
            Action::MoveDown => moved(ItemOrder::Next, Some(self.selected_index), self.entries@.len()),
            Action::MoveUp => moved(ItemOrder::Previous, Some(self.selected_index), self.entries@.len()),
            Action::GoFirst => moved(ItemOrder::First, Some(self.selected_index), self.entries@.len()),
            Action::GoLast => moved(ItemOrder::Last, Some(self.selected_index), self.entries@.len()),
            _ => None,
        }
    }

    /// Moves the cursor.
    pub fn handle_action(&mut self, action: Action) -> (state: EventState)
        requires
            old(self).wf(),
        ensures
            final(self).wf(),
            match old(self).moved_by(action) {
                Some(i) => state is Consumed && *final(self) == (RecentSpacesModal {
                    selected_index: i,
                    ..*old(self)
                }),
                None => state is NotConsumed && *final(self) == *old(self),
            },
    {
        let order = match action {
            Action::MoveDown => ItemOrder::Next,
            Action::MoveUp => ItemOrder::Previous,
            Action::GoFirst => ItemOrder::First,
            Action::GoLast => ItemOrder::Last,
            _ => {
                return EventState::NotConsumed;
            },
        };
        if let Some(i) = step(order, Some(self.selected_index), self.entries.len()) {
            self.selected_index = i;
        }
        EventState::Consumed
    }

    /// What a key comes to.
    pub open spec fn answer(self, action: Action, jump: Jump) -> bool {
        match action {
            Action::Select => if self.entries@.len() == 0 {
                jump is Consumed
            } else {
                jump matches Jump::SelectSpace(path) && path == self.entries@[
                    self.selected_index as int
                ].space.path
            },
            Action::ClosePopup | Action::ExitInsertMode => jump is Close,
            _ => if self.moved_by(action) is Some {
                jump is Consumed
            } else {
                jump is Ignored
            },
        }
    }

    /// Acts on a key.
    pub fn handle(&mut self, action: Action) -> (jump: Jump)
        requires
            old(self).wf(),
        ensures
            final(self).wf(),
            old(self).answer(action, jump),
            *final(self) == (RecentSpacesModal {
                selected_index: match old(self).moved_by(action) {
                    Some(i) => i,
                    None => old(self).selected_index,
                },
                ..*old(self)
            }),
    {
        match action {
            Action::Select => if self.entries.len() == 0 {
                Jump::Consumed
            } else {
                Jump::SelectSpace(self.entries[self.selected_index].space.path.clone())
            },
            Action::ClosePopup | Action::ExitInsertMode => Jump::Close,
            _ => match self.handle_action(action) {
                EventState::Consumed => Jump::Consumed,
                _ => Jump::Ignored,
            },
        }
    }
}

/// The list holds every space, newest first: none comes before one that was
/// committed to later, and those without a commit come after all that have one.
pub proof fn law_newest_first(entries: Seq<SpaceEntry>, i: int, j: int)
    requires
        0 <= i < j < by_recency(entries).len(),
    ensures
        ({
            let a = by_recency(entries)[i].space.tip;
            let b = by_recency(entries)[j].space.tip;
            &&& a is None ==> b is None
            &&& a is Some && b is Some ==> a->0.committed_at >= b->0.committed_at
        }),
{
    let keys = recent_keys(entries);
    law_arranged(keys);
    let order = arranged(keys);
    let a = keys[order[i]]->0;
    let b = keys[order[j]]->0;
    assert(a.before(b) || !b.before(a));
    assert(by_recency(entries)[i] == entries[order[i]]);
    assert(by_recency(entries)[j] == entries[order[j]]);
    assert(a == recent_key(entries[order[i]]));
    assert(b == recent_key(entries[order[j]]));
}

/// The keys of the jump list.
pub open spec fn recent_spaces_table() -> Seq<HelpEntry> {
    seq![
        HelpEntry::Section(KEYS_SECTION),
        HelpEntry::bind("j / \u{2193}", "Move down").hint("\u{2191}/\u{2193}", "move"),
        HelpEntry::bind("k / \u{2191}", "Move up"),
        HelpEntry::bind("g / Home", "Go to first"),
        HelpEntry::bind("G / End", "Go to last"),
        HelpEntry::bind("Enter", "Jump to selected space").hint("Enter", "jump"),
        HelpEntry::bind("? / F1", "Show this help").hint("?", "help").aside(),
        HelpEntry::bind("Esc", "Close").hint("Esc", "cancel").safe().essential(),
        HelpEntry::bind("q / Ctrl+C", "Quit"),
    ]
}

/// The keys of the jump list.
pub fn recent_spaces_bindings() -> (entries: Vec<HelpEntry>)
    ensures
        entries@ == recent_spaces_table(),
{
    let mut entries: Vec<HelpEntry> = Vec::new();
    entries.push(HelpEntry::Section(KEYS_SECTION));
    entries.push(HelpEntry::bind("j / \u{2193}", "Move down").hint("\u{2191}/\u{2193}", "move"));
    entries.push(HelpEntry::bind("k / \u{2191}", "Move up"));
    entries.push(HelpEntry::bind("g / Home", "Go to first"));
    entries.push(HelpEntry::bind("G / End", "Go to last"));
    entries.push(HelpEntry::bind("Enter", "Jump to selected space").hint("Enter", "jump"));
    entries.push(HelpEntry::bind("? / F1", "Show this help").hint("?", "help").aside());
    entries.push(HelpEntry::bind("Esc", "Close").hint("Esc", "cancel").safe().essential());
    entries.push(HelpEntry::bind("q / Ctrl+C", "Quit"));
    assert(entries@ =~= recent_spaces_table());
    entries
}

/// Every space is on the list, and none twice.
pub proof fn law_every_space_is_listed_once(entries: Seq<SpaceEntry>)
    ensures
        by_recency(entries).len() == entries.len(),
        forall|k: int|
            0 <= k < entries.len() ==> by_recency(entries).contains(#[trigger] entries[k]),
        forall|i: int|
            0 <= i < by_recency(entries).len() ==> entries.contains(
                #[trigger] by_recency(entries)[i],
            ),
{
    let keys = recent_keys(entries);
    law_arranged(keys);
    let order = arranged(keys);
    let n = entries.len() as int;
    assert forall|k: int| 0 <= k < n implies order.contains(k) && by_recency(entries).contains(
        #[trigger] entries[k],
    ) by {
        assert(keys[k] is Some);
        assert(order.contains(k));
        let i = choose|i: int| 0 <= i < order.len() && order[i] == k;
        assert(by_recency(entries)[i] == entries[k]);
    }
    order.unique_seq_to_set();
    vstd::set_lib::lemma_int_range(0, n);
    assert(order.to_set() =~= vstd::set_lib::set_int_range(0, n)) by {
        assert forall|k: int| 0 <= k < n implies #[trigger] order.to_set().contains(k) by {
            assert(entries[k] == entries[k]);
        }
    }
    assert forall|i: int| 0 <= i < by_recency(entries).len() implies entries.contains(
        #[trigger] by_recency(entries)[i],
    ) by {
        assert(by_recency(entries)[i] == entries[order[i]]);
    }
}

/// Spaces without a commit are listed by name: by that of the repository, then by
/// their own.
pub proof fn law_spaces_without_a_commit_go_by_name(entries: Seq<SpaceEntry>, i: int, j: int)
    requires
        0 <= i < j < by_recency(entries).len(),
        by_recency(entries)[i].space.tip is None,
        by_recency(entries)[j].space.tip is None,
    ensures
        ({
            let a = by_recency(entries)[i];
            let b = by_recency(entries)[j];
            &&& !text_before(b.repo_name@, a.repo_name@)
            &&& a.repo_name@ == b.repo_name@ ==> !text_before(b.space.name@, a.space.name@)
        }),
{
    let keys = recent_keys(entries);
    law_arranged(keys);
    let order = arranged(keys);
    let a = keys[order[i]]->0;
    let b = keys[order[j]]->0;
    assert(by_recency(entries)[i] == entries[order[i]]);
    assert(by_recency(entries)[j] == entries[order[j]]);
    assert(a == recent_key(entries[order[i]]));
    assert(b == recent_key(entries[order[j]]));
    assert(a.before(b) || !b.before(a));
    if b.before(a) {
        RecentRank::before_transitive(b, a, b);
        RecentRank::not_before_itself(b);
    }
}

/// Enter goes to the space the cursor is on; no other key goes anywhere.
pub proof fn law_enter_jumps_to_the_space_under_the_cursor(
    list: RecentSpacesModal,
    action: Action,
    jump: Jump,
)
    requires
        list.wf(),
        list.answer(action, jump),
    ensures
        jump is SelectSpace <==> action is Select && list.entries@.len() > 0,
        jump matches Jump::SelectSpace(path) ==> path@ == list.entries@[
            list.selected_index as int
        ].space.path@,
        jump is Close <==> action is ClosePopup || action is ExitInsertMode,
{
}

/// The keys of the list move the cursor one row, or to an end.
pub proof fn law_the_cursor_moves_row_by_row(list: RecentSpacesModal, action: Action)
    requires
        list.wf(),
        list.entries@.len() > 0,
        list.entries@.len() <= usize::MAX,
    ensures
        ({
            let i = list.selected_index;
            let n = list.entries@.len();
            let at = list.moved_by(action);
            &&& action is MoveDown ==> at == Some(if i + 1 < n {
                (i + 1) as usize
            } else {
                i
            })
            &&& action is MoveUp ==> at == Some(if i > 0 {
                (i - 1) as usize
            } else {
                0
            })
            &&& action is GoFirst ==> at == Some(0usize)
            &&& action is GoLast ==> at == Some((n - 1) as usize)
            &&& !(action is MoveDown || action is MoveUp || action is GoFirst
                || action is GoLast) ==> at is None
        }),
{
}

/// A row says how long ago the last commit was and what it was about; the name of
/// the space stands in it unless the space is the repository itself.
pub proof fn law_a_row_names_its_space(entry: SpaceEntry, now: i64, theme: Theme)
    ensures
        ({
            let line = recent_line(entry, now, theme);
            &&& line[1].0 == entry.repo_name@
            &&& entry.space.path@ != entry.repo_path@ ==> line.len() == 6 && line[3].0
                == entry.space.name@
            &&& entry.space.path@ == entry.repo_path@ ==> line.len() == 4
            &&& entry.space.tip is None ==> line.last().0 == "(no commits yet)"@
            &&& entry.space.tip matches Some(tip) ==> line.last().0 == subject_shown(tip.subject@)
                && line[0].0 == padded_front(age_of(elapsed(tip.committed_at, now)), 3) + " "@
        }),
{
}

/// The popup has room for every space there is, from one row to sixteen.
pub proof fn law_the_list_is_one_to_sixteen_rows_tall(list: RecentSpacesModal)
    ensures
        1 <= list.rows_wanted() <= 16,
        1 <= list.entries@.len() <= 16 ==> list.rows_wanted() == list.entries@.len(),
        list.entries@.len() > 16 ==> list.rows_wanted() == 16,
{
}

} // verus!
