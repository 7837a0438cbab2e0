//! Choosing one of the configured directories.

use vstd::prelude::*;

use crate::components::help::{footer_entries, footer_of, HelpEntry, KEYS_SECTION};
use crate::components::list::{moved, step, ItemOrder};
use crate::components::modal::{is_countable, popup_area, popup_in, Extent};
use crate::components::picker::{picker_areas, PickerView};
use crate::components::pr_worktree::Flow;
use crate::components::prompt::{footer, footer_line, line_view};
use crate::components::{Action, EventState};
use crate::github::{PrInfo, PrUrl};
use crate::screen::{lines_of, push_line, Line, Rect};
use crate::text::{char_count, from_chars, to_chars};
use crate::theme::{self, Style, Theme};

verus! {

/// How to adopt jj after the clone, said beneath the list.
pub const HINT: &'static str = " \u{21b3} for jj: jj git init --colocate";

/// What a choice sets off: cloning the repository of a pull request.
#[derive(Debug, PartialEq, Eq)]
pub struct CloneRequest {
    pub url: PrUrl,
    pub info: PrInfo,
    pub flow: Flow,
}

/// What the picker made of a key.
#[derive(Debug, PartialEq, Eq)]
pub enum Choice {
    Consumed,
    Ignored,
    Close,
    /// This directory was chosen.
    Picked(String, CloneRequest),
}

/// The picker of a directory to clone into.
#[derive(Debug, PartialEq, Eq)]
pub struct SelectDirectoryComponent {
    pub dirs: Vec<String>,
    pub selected_index: usize,
    /// What the choice sets off, until it has been made.
    pub on_select: Option<CloneRequest>,
}

/// Where the last slash stands.
pub open spec fn last_slash(s: Seq<char>) -> Option<int>
    decreases s.len(),
{
    if s.len() == 0 {
        None
    } else if s.last() == '/' {
        Some(s.len() - 1)
    } else {
        last_slash(s.drop_last())
    }
}

/// One row: the parent dimmed, the directory itself in full weight; a path that
/// ends in a slash, or has none, is shown plainly.
pub open spec fn dir_line(dir: Seq<char>, theme: Theme) -> Seq<(Seq<char>, Style)> {
    match last_slash(dir) {
        Some(i) => if i + 1 == dir.len() {
            seq![(dir, theme::text(&theme))]
        } else {
            seq![
                (dir.take(i + 1), theme::muted(&theme)),
                (dir.skip(i + 1), theme::text(&theme).bold()),
            ]
        },
        None => seq![(dir, theme::text(&theme))],
    }
}

fn dir_row(dir: &str, theme: &Theme) -> (line: Line)
    ensures
        line@ == dir_line(dir@, *theme),
{
    let chars = to_chars(dir);
    let n: usize = chars.len();
    let mut end: usize = n;
    assert(chars@.take(n as int) =~= chars@);
    while end > 0 && chars[end - 1] != '/'
        invariant
            end <= n,
            n == chars@.len(),
            last_slash(chars@) == last_slash(chars@.take(end as int)),
        decreases end,
    {
        assert(chars@.take(end as int).last() == chars@[end - 1]);
        assert(chars@.take(end as int).drop_last() =~= chars@.take(end - 1));
        end = end - 1;
    }
    if end > 0 {
        assert(chars@.take(end as int).last() == '/');
        assert(last_slash(dir@) == Some(end - 1));
    }
    if end == 0 || end == n {
        return Line::styled(dir, theme::text(theme));
    }
    let parent = from_chars(&chars, 0, end);
    let name = from_chars(&chars, end, n);
    assert(parent@ =~= dir@.take(end as int));
    assert(name@ =~= dir@.skip(end as int));
    let mut line = Line::empty();
    line.push(parent.as_str(), theme::muted(theme));
    line.push(name.as_str(), theme::text(theme).bold());
    assert(line@ =~= dir_line(dir@, *theme));
    line
}

/// A row shows the whole path, character for character.
pub proof fn law_a_row_shows_the_whole_path(dir: Seq<char>, theme: Theme)
    ensures
        crate::screen::text_of(dir_line(dir, theme)) == dir,
{
    let line = dir_line(dir, theme);
    reveal_with_fuel(crate::screen::text_of, 3);
    lemma_last_slash(dir);
    assert(crate::screen::text_of(line) =~= dir);
}

proof fn lemma_last_slash(s: Seq<char>)
    ensures
        last_slash(s) matches Some(i) ==> 0 <= i < s.len(),
    decreases s.len(),
{
    if s.len() > 0 {
        lemma_last_slash(s.drop_last());
    }
}

impl SelectDirectoryComponent {
    /// There is something to choose, and the cursor is on it.
    pub open spec fn wf(self) -> bool {
        self.selected_index < self.dirs@.len()
    }

    pub fn new(dirs: Vec<String>, on_select: CloneRequest) -> (picker: SelectDirectoryComponent)
        ensures
            picker == (SelectDirectoryComponent {
                dirs,
                selected_index: 0,
                on_select: Some(on_select),
            }),
            dirs@.len() > 0 ==> picker.wf(),
    {
        SelectDirectoryComponent { dirs, selected_index: 0, on_select: Some(on_select) }
    }

    /// The directory the cursor is on.
    pub fn selected_dir(&self) -> (dir: &str)
        requires
            self.wf(),
        ensures
            dir@ == self.dirs@[self.selected_index as int]@,
    {
        self.dirs[self.selected_index].as_str()
    }

    /// The height the popup would like: its rows, up to a point.
    pub open spec fn wanted(self) -> Extent {
        Extent::fixed(
            if self.dirs@.len() < 10 {
                (self.dirs@.len() + 5) as u16
            } else {
                15
            },
        )
    }

    /// Where the popup sits inside the frame: it grows with the list, to ten
    /// rows.
    pub fn area(&self, full: Rect) -> (area: Rect)
        requires
            is_countable(full),
        ensures
            area == popup_in(full, Extent::share(60, 38, 110), self.wanted()),
    {
        let rows: u16 = if self.dirs.len() < 10 {
            self.dirs.len() as u16 + 5
        } else {
            15
        };
        popup_area(full, Extent::share(60, 38, 110), Extent::fixed(rows))
    }

    /// The rows as they are drawn.
    pub open spec fn row_lines(self, theme: Theme) -> Seq<Seq<(Seq<char>, Style)>> {
        self.dirs@.map_values(|dir: String| dir_line(dir@, theme))
    }

    /// Whether `view` is this picker as it is drawn into `area`.
    pub open spec fn is_drawn(self, area: Rect, theme: &Theme, view: Option<PickerView>) -> bool {
        &&& view is None <==> area.is_empty()
        &&& view matches Some(v) ==> {
            let inner = area.spec_within_border();
            &&& v.area == area
            &&& v.border == theme::border_focused(theme)
            &&& v.surface == theme::popup_surface(theme)
            &&& v.title@ == seq![
                (" \u{25b8} "@, theme::key(theme)),
                ("Select Clone Directory "@, theme::title(theme)),
            ]
            &&& v.footer@ == footer_line(
                footer_of(select_directory_table(), KEYS_SECTION@, *theme),
                area.width,
                *theme,
            )
            &&& v.prompt@ == seq![(" Clone with git into:"@, theme::secondary(theme))]
            &&& lines_of(v.rows@) == self.row_lines(*theme)
            &&& v.empty is None
            &&& v.row_style == theme::text(theme)
            &&& v.highlight == theme::selected_row(theme)
            &&& v.marker == "\u{25b8} "
            &&& v.selected == Some(self.selected_index)
            &&& v.scrolls == (self.dirs@.len() > v.list_area.height)
            &&& v.bar == theme::rule(theme)
            &&& line_view(v.note) == (if inner.width >= HINT@.len() {
                Some(seq![(HINT@, theme::muted(theme))])
            } else {
                None
            })
            &&& inner.holds(v.prompt_area) && inner.holds(v.list_area)
            &&& inner.height >= 3 ==> {
                &&& v.prompt_area == (Rect { height: 1, ..inner })
                &&& v.list_area == (Rect {
                    y: (inner.y + 1) as u16,
                    height: (inner.height - 2) as u16,
                    ..inner
                })
                &&& v.note_area == Some(
                    Rect { y: (inner.y + inner.height - 1) as u16, height: 1, ..inner },
                )
            }
        }
    }

    /// The popup as it is drawn into `area`, or nothing where there is no room.
    pub fn draw(&self, area: Rect, theme: &Theme) -> (view: Option<PickerView>)
        requires
            is_countable(area),
        ensures
            self.is_drawn(area, theme, view),
    {
        if area.is_empty() {
            return None;
        }
        let mut title = Line::empty();
        title.push(" \u{25b8} ", theme::key(theme));
        title.push("Select Clone Directory ", theme::title(theme));
        assert(title@ =~= seq![
            (" \u{25b8} "@, theme::key(theme)),
            ("Select Clone Directory "@, theme::title(theme)),
        ]);
        let bindings = select_directory_bindings();
        let entries = footer_entries(&bindings, KEYS_SECTION, theme);
        let inner = area.within_border();
        let (prompt_area, list_area, note_area) = picker_areas(inner, true);

        let ghost wanted = self.row_lines(*theme);
        let mut rows: Vec<Line> = Vec::new();
        let mut i: usize = 0;
        assert(lines_of(rows@) =~= wanted.take(0));
        while i < self.dirs.len()
            invariant
                i <= self.dirs@.len(),
                wanted == self.row_lines(*theme),
                lines_of(rows@) == wanted.take(i as int),
            decreases self.dirs.len() - i,
        {
            let line = dir_row(self.dirs[i].as_str(), theme);
            push_line(&mut rows, line);
            assert(wanted[i as int] == line@);
            assert(lines_of(rows@) =~= wanted.take(i + 1));
            i = i + 1;
        }
        assert(lines_of(rows@) =~= wanted);
        let width: u16 = match note_area {
            Some(area) => area.width,
            None => 0,
        };
        let note = if width as usize >= char_count(HINT) {
            Some(Line::styled(HINT, theme::muted(theme)))
        } else {
            None
        };
        Some(
            PickerView {
                area,
                border: theme::border_focused(theme),
                surface: theme::popup_surface(theme),
                title,
                footer: footer(&entries, area.width, theme),
                prompt: Line::styled(" Clone with git into:", theme::secondary(theme)),
                prompt_area,
                rows,
                empty: None,
                list_area,
                row_style: theme::text(theme),
                highlight: theme::selected_row(theme),
                marker: "\u{25b8} ",
                selected: Some(self.selected_index),
                scrolls: self.dirs.len() > list_area.height as usize,
                bar: theme::rule(theme),
                note,
                note_area,
            },
        )
    }

    /// What a key does to the cursor.
    pub open spec fn moved_by(self, action: Action) -> Option<usize> {
        match action {
            Action::MoveDown => moved(ItemOrder::Next, Some(self.selected_index), self.dirs@.len()),
            Action::MoveUp => moved(ItemOrder::Previous, Some(self.selected_index), self.dirs@.len()),
            Action::GoFirst => moved(ItemOrder::First, Some(self.selected_index), self.dirs@.len()),
            Action::GoLast => moved(ItemOrder::Last, Some(self.selected_index), self.dirs@.len()),
            _ => None,
        }
    }

    /// Moves the cursor.
    pub fn handle_action(&mut self, action: Action) -> (state: EventState)
        requires
            old(self).wf(),
        ensures
            final(self).wf(),
            match old(self).moved_by(action) {
                Some(i) => state is Consumed && *final(self) == (SelectDirectoryComponent {
                    selected_index: i,
                    ..*old(self)
                }),
                None => state is NotConsumed && *final(self) == *old(self),
            },
    {
        let order = match action {
            Action::MoveDown => ItemOrder::Next,
            Action::MoveUp => ItemOrder::Previous,
            Action::GoFirst => ItemOrder::First,
            Action::GoLast => ItemOrder::Last,
            _ => {
                return EventState::NotConsumed;
            },
        };
        if let Some(i) = step(order, Some(self.selected_index), self.dirs.len()) {
            self.selected_index = i;
        }
        EventState::Consumed
    }

    /// What a key comes to.
    pub open spec fn answer(self, action: Action, choice: Choice) -> bool {
        match action {
            Action::Select => match self.on_select {
                Some(request) => choice matches Choice::Picked(dir, sent) && sent == request
                    && dir == self.dirs@[self.selected_index as int],
                None => choice is Close,
            },
            Action::ClosePopup | Action::ExitInsertMode => choice is Close,
            _ => if self.moved_by(action) is Some {
                choice is Consumed
            } else {
                choice is Ignored
            },
        }
    }

    /// The picker after a key.
    pub open spec fn after(self, action: Action) -> SelectDirectoryComponent {
        SelectDirectoryComponent {
            selected_index: match self.moved_by(action) {
                Some(i) => i,
                None => self.selected_index,
            },
            on_select: if action is Select {
                None
            } else {
                self.on_select
            },
            ..self
        }
    }

    /// Acts on a key.
    pub fn handle(&mut self, action: Action) -> (choice: Choice)
        requires
            old(self).wf(),
        ensures
            final(self).wf(),
            old(self).answer(action, choice),
            *final(self) == old(self).after(action),
    {
        match action {
            Action::Select => {
                let dir = self.dirs[self.selected_index].clone();
                match self.on_select.take() {
                    Some(request) => Choice::Picked(dir, request),
                    None => Choice::Close,
                }
            },
            Action::ClosePopup | Action::ExitInsertMode => Choice::Close,
            _ => match self.handle_action(action) {
                EventState::Consumed => Choice::Consumed,
                _ => Choice::Ignored,
            },
        }
    }
}

/// The keys of the picker.
pub open spec fn select_directory_table() -> Seq<HelpEntry> {
    seq![
        HelpEntry::Section(KEYS_SECTION),
        HelpEntry::bind("j / \u{2193}", "Move down").hint("\u{2191}/\u{2193}", "move"),
        HelpEntry::bind("k / \u{2191}", "Move up"),
        HelpEntry::bind("g / Home", "Go to first"),
        HelpEntry::bind("G / End", "Go to last"),
        HelpEntry::bind("Enter", "Clone to selected directory").hint("Enter", "select"),
        HelpEntry::bind("? / F1", "Show this help").hint("?", "help").aside(),
        HelpEntry::bind("Esc", "Cancel").hint("Esc", "cancel").safe().essential(),
        HelpEntry::bind("q / Ctrl+C", "Quit"),
    ]
}

/// The keys of the picker.
pub fn select_directory_bindings() -> (entries: Vec<HelpEntry>)
    ensures
        entries@ == select_directory_table(),
{
    let mut entries: Vec<HelpEntry> = Vec::new();
    entries.push(HelpEntry::Section(KEYS_SECTION));
    entries.push(HelpEntry::bind("j / \u{2193}", "Move down").hint("\u{2191}/\u{2193}", "move"));
    entries.push(HelpEntry::bind("k / \u{2191}", "Move up"));
    entries.push(HelpEntry::bind("g / Home", "Go to first"));
    entries.push(HelpEntry::bind("G / End", "Go to last"));
    entries.push(HelpEntry::bind("Enter", "Clone to selected directory").hint("Enter", "select"));
    entries.push(HelpEntry::bind("? / F1", "Show this help").hint("?", "help").aside());
    entries.push(HelpEntry::bind("Esc", "Cancel").hint("Esc", "cancel").safe().essential());
    entries.push(HelpEntry::bind("q / Ctrl+C", "Quit"));
    assert(entries@ =~= select_directory_table());
    entries
}

/// Enter sends the clone into the directory the cursor is on, and does so once.
pub proof fn law_enter_picks_the_directory_under_the_cursor(
    picker: SelectDirectoryComponent,
    choice: Choice,
)
    requires
        picker.wf(),
        picker.answer(Action::Select, choice),
    ensures
        picker.on_select matches Some(request) ==> choice == Choice::Picked(
            picker.dirs@[picker.selected_index as int],
            request,
        ),
        picker.on_select is None ==> choice is Close,
        picker.after(Action::Select).on_select is None,
{
}

/// Nothing but Enter picks a directory: Esc closes the picker, and the keys that
/// move the cursor only move it.
pub proof fn law_moving_picks_no_directory(
    picker: SelectDirectoryComponent,
    action: Action,
    choice: Choice,
)
    requires
        picker.wf(),
        picker.answer(action, choice),
        !(action is Select),
        picker.dirs@.len() <= usize::MAX,
    ensures
        !(choice is Picked),
        choice is Close <==> action is ClosePopup || action is ExitInsertMode,
        picker.after(action).on_select == picker.on_select && picker.after(action).dirs
            == picker.dirs,
        ({
            let i = picker.selected_index;
            let n = picker.dirs@.len();
            let at = picker.after(action).selected_index;
            &&& action is MoveDown ==> at == (if i + 1 < n {
                i + 1
            } else {
                i as int
            })
            &&& action is MoveUp ==> at == (if i > 0 {
                i - 1
            } else {
                0
            })
            &&& action is GoFirst ==> at == 0
            &&& action is GoLast ==> at == n - 1
            &&& !(action is MoveDown || action is MoveUp || action is GoFirst
                || action is GoLast) ==> at == i
        }),
{
}

/// In a row the parent of a directory is dim and its own name stands out; a path
/// without a name behind its last slash is shown plainly.
pub proof fn law_a_row_shows_the_directory_in_full_weight(
    above: Seq<char>,
    name: Seq<char>,
    theme: Theme,
)
    requires
        name.len() > 0,
        !name.contains('/'),
    ensures
        dir_line(above + seq!['/'] + name, theme) == seq![
            (above + seq!['/'], theme::muted(&theme)),
            (name, theme::text(&theme).bold()),
        ],
        dir_line(name, theme) == seq![(name, theme::text(&theme))],
        dir_line(above + seq!['/'], theme) == seq![(above + seq!['/'], theme::text(&theme))],
{
    let path = above + seq!['/'] + name;
    lemma_last_slash_before(above, name);
    assert(path.take(above.len() as int + 1) =~= above + seq!['/']);
    assert(path.skip(above.len() as int + 1) =~= name);
    lemma_no_slash(name);
    let bare = above + seq!['/'];
    assert(bare.last() == '/');
}

proof fn lemma_last_slash_before(above: Seq<char>, name: Seq<char>)
    requires
        !name.contains('/'),
    ensures
        last_slash(above + seq!['/'] + name) == Some(above.len() as int),
    decreases name.len(),
{
    let path = above + seq!['/'] + name;
    if name.len() == 0 {
        assert(path.last() == '/');
    } else {
        assert(path.last() == name.last());
        assert(name[name.len() - 1] != '/');
        let rest = name.drop_last();
        assert(!rest.contains('/')) by {
            if rest.contains('/') {
                let i = choose|i: int| 0 <= i < rest.len() && rest[i] == '/';
                assert(name[i] == '/');
            }
        }
        lemma_last_slash_before(above, rest);
        assert(path.drop_last() =~= above + seq!['/'] + rest);
    }
}

proof fn lemma_no_slash(name: Seq<char>)
    requires
        !name.contains('/'),
    ensures
        last_slash(name) is None,
    decreases name.len(),
{
    if name.len() > 0 {
        assert(name[name.len() - 1] != '/');
        let rest = name.drop_last();
        assert(!rest.contains('/')) by {
            if rest.contains('/') {
                let i = choose|i: int| 0 <= i < rest.len() && rest[i] == '/';
                assert(name[i] == '/');
            }
        }
        lemma_no_slash(rest);
    }
}

} // verus!
