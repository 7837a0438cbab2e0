//! The list of spaces as it is drawn.

use vstd::prelude::*;

use crate::components::filter::{draw_filter, is_filter_view, FilterView};
use crate::components::help::{
    footer_entries, footer_of, worktrees_bindings, worktrees_table, FILTER_SECTION, KEYS_SECTION,
};
use crate::components::list::Focus;
use crate::components::modal::{fits, is_countable};
use crate::components::notify::Notification;
use crate::components::prompt::{footer, footer_line};
use crate::components::worktrees::row::{
    all_parts, columns, parts, row_head, row_names, space_row, RowLabel, RowLayout,
};
use crate::components::worktrees::status::{
    spinner, status_zone, too_small, too_small_lines, zone, EmptyState,
};
use crate::components::worktrees::WorktreesComponent;
use crate::keymap::InputMode;
use crate::order::ints;
use crate::screen::{
    center, diff, lines_of, min_u16, minus, push_line, text_of, Axis, Line, Rect,
};
use crate::text::{concat, decimal, decimal_of};
use crate::theme::{self, Style, Theme};

verus! {

/// The list as it is drawn.
#[derive(Debug, PartialEq, Eq)]
pub struct PaneView {
    pub area: Rect,
    pub border: Style,
    pub surface: Style,
    pub title: Line,
    /// At the left of the bottom border.
    pub status: Line,
    /// At the right of the bottom border.
    pub keys: Line,
    pub filter: Option<FilterView>,
    pub list_area: Rect,
    pub rows: Vec<Line>,
    pub row_style: Style,
    pub highlight: Style,
    pub selected: Option<usize>,
    /// What is said in place of rows, in the middle of the list.
    pub empty: Option<(Vec<Line>, Rect)>,
    /// Whether there are rows off screen, and so a scrollbar.
    pub scrolls: bool,
    pub bar: Style,
}

/// What the base of the screen shows.
#[derive(Debug, PartialEq, Eq)]
pub enum WorktreesView {
    /// The terminal is below the floor: one message, and no chrome.
    TooSmall { surface: Style, lines: Vec<Line>, area: Rect },
    Pane(PaneView),
}

/// A band of `height` rows in the middle of `area`.
pub open spec fn middle(area: Rect, height: u16) -> Rect {
    Rect { y: (area.y + (area.height - height + 1) / 2) as u16, height, ..area }
}

/// The fewer of a count of rows and the rows there are.
pub open spec fn rows_within(count: nat, area: Rect) -> u16 {
    if count < area.height {
        count as u16
    } else {
        area.height
    }
}

impl WorktreesComponent {
    /// The number of the selected row, counted from one and never past the last.
    pub open spec fn position(self) -> nat {
        match self.selected_index {
            Some(i) => if i + 1 < self.rows().len() {
                (i + 1) as nat
            } else {
                self.rows().len()
            },
            None => 0,
        }
    }

    /// The title: where the user is, what they filter by, what is going on.
    pub open spec fn title_runs(self, mode: InputMode, theme: Theme) -> Seq<(Seq<char>, Style)> {
        seq![
            (" "@, Style::plain()),
            ("Worktrees"@, theme::title(&theme)),
            (
                " ("@ + decimal_of(self.position()) + "/"@ + decimal_of(self.rows().len()) + ") "@,
                theme::secondary(&theme),
            ),
        ] + (if self.filter.value@.len() > 0 && mode is Normal {
            seq![("/"@ + self.filter.value@ + " "@, theme::muted(&theme))]
        } else {
            Seq::empty()
        }) + (match self.waiting_for() {
            Some((activity, count)) => seq![
                (spinner(self.frame)@ + " "@, theme::title(&theme)),
                (
                    activity.verb()@ + "\u{2026} "@ + decimal_of(count as nat) + " "@
                        + activity.noun()@ + " "@,
                    theme::secondary(&theme),
                ),
            ],
            None => Seq::empty(),
        })
    }

    fn title(&self, total: usize, mode: InputMode, theme: &Theme) -> (line: Line)
        requires
            total == self.rows().len(),
        ensures
            line@ == self.title_runs(mode, *theme),
    {
        let current: usize = match self.selected_index {
            Some(i) => if i < total {
                i + 1
            } else {
                total
            },
            None => 0,
        };
        assert(current == self.position());
        let mut line = Line::empty();
        line.push(" ", Style::plain());
        line.push("Worktrees", theme::title(theme));
        let mut count = concat(" (", decimal(current as u64).as_str());
        count.append("/");
        count.append(decimal(total as u64).as_str());
        count.append(") ");
        line.push(count.as_str(), theme::secondary(theme));
        if !self.filter.value.as_str().is_empty() && matches!(mode, InputMode::Normal) {
            let mut text = concat("/", self.filter.value.as_str());
            text.append(" ");
            line.push(text.as_str(), theme::muted(theme));
        }
        if let Some((activity, count)) = self.progress() {
            let picture = concat(spinner(self.frame), " ");
            line.push(picture.as_str(), theme::title(theme));
            let mut text = concat(activity.verb(), "\u{2026} ");
            text.append(decimal(count as u64).as_str());
            text.append(" ");
            text.append(activity.noun());
            text.append(" ");
            line.push(text.as_str(), theme::secondary(theme));
        }
        assert(line@ =~= self.title_runs(mode, *theme));
        line
    }

    /// Whether the filter is being typed into.
    pub open spec fn is_filtering(self, mode: InputMode, is_active: bool) -> bool {
        is_active && mode is Insert && self.focus is Filter
    }

    /// The labels of the rows on show.
    pub open spec fn labels_shown(self) -> Seq<(Seq<char>, Option<Seq<char>>)> {
        self.rows().map_values(|x: int| self.spaces@[x].label_parts())
    }

    /// The columns of the rows, the scrollbar's column given up where there is
    /// one.
    pub open spec fn row_columns(self, list_area: Rect) -> RowLayout {
        columns(
            self.labels_shown(),
            diff(
                list_area.width,
                if self.rows().len() > list_area.height {
                    1
                } else {
                    0
                },
            ),
        )
    }

    /// The rows as they are drawn.
    pub open spec fn row_lines(self, list_area: Rect, theme: Theme) -> Seq<
        Seq<(Seq<char>, Style)>,
    > {
        let cols = self.row_columns(list_area);
        self.rows().map_values(
            |x: int|
                row_head(self.spaces@[x].space, theme) + row_names(
                    self.spaces@[x].label_parts(),
                    cols,
                    theme,
                ),
        )
    }

    fn draw_rows(&self, shown: &Vec<usize>, list_area: Rect, theme: &Theme) -> (lines: Vec<Line>)
        requires
            ints(shown@) == self.rows(),
            forall|i: int| 0 <= i < shown@.len() ==> #[trigger] shown@[i] < self.spaces@.len(),
        ensures
            lines_of(lines@) == self.row_lines(list_area, *theme),
    {
        let ghost rows = self.rows();
        assert(rows.len() == shown@.len());
        let mut labels: Vec<RowLabel> = Vec::new();
        let mut i: usize = 0;
        assert(all_parts(labels@) =~= self.labels_shown().take(0));
        while i < shown.len()
            invariant
                i <= shown@.len(),
                rows == self.rows(),
                rows == ints(shown@),
                rows.len() == shown@.len(),
                forall|k: int| 0 <= k < shown@.len() ==> #[trigger] shown@[k] < self.spaces@.len(),
                labels@.len() == i,
                all_parts(labels@) == self.labels_shown().take(i as int),
            decreases shown.len() - i,
        {
            assert(rows[i as int] == shown@[i as int]);
            let ghost before = all_parts(labels@);
            let label = self.spaces[shown[i]].row_label();
            labels.push(label);
            assert(all_parts(labels@) =~= before.push(parts(label)));
            assert(self.labels_shown()[i as int] == parts(label));
            assert(all_parts(labels@) =~= self.labels_shown().take(i + 1));
            i = i + 1;
        }
        assert(all_parts(labels@) =~= self.labels_shown());

        let scrolls = shown.len() > list_area.height as usize;
        let width: u16 = minus(
            list_area.width,
            if scrolls {
                1
            } else {
                0
            },
        );
        let cols = RowLayout::measure(&labels, width);
        assert(cols == self.row_columns(list_area));
        let ghost wanted = self.row_lines(list_area, *theme);
        let mut lines: Vec<Line> = Vec::new();
        let mut i: usize = 0;
        assert(lines_of(lines@) =~= wanted.take(0));
        while i < shown.len()
            invariant
                i <= shown@.len(),
                rows == self.rows(),
                rows == ints(shown@),
                rows.len() == shown@.len(),
                forall|k: int| 0 <= k < shown@.len() ==> #[trigger] shown@[k] < self.spaces@.len(),
                labels@.len() == shown@.len(),
                all_parts(labels@) == self.labels_shown(),
                cols == self.row_columns(list_area),
                cols.repo + cols.space <= 65535,
                wanted == self.row_lines(list_area, *theme),
                lines_of(lines@) == wanted.take(i as int),
            decreases shown.len() - i,
        {
            assert(rows[i as int] == shown@[i as int]);
            assert(all_parts(labels@)[i as int] == parts(labels@[i as int]));
            let line = space_row(&self.spaces[shown[i]].space, &labels[i], &cols, theme);
            push_line(&mut lines, line);
            assert(wanted[i as int] == line@);
            assert(lines_of(lines@) =~= wanted.take(i + 1));
            i = i + 1;
        }
        assert(lines_of(lines@) =~= wanted);
        lines
    }

    /// What the pane shows, given where its list is.
    pub open spec fn is_pane(
        self,
        view: PaneView,
        rect: Rect,
        mode: InputMode,
        is_active: bool,
        focused: bool,
        notice: Option<Notification>,
        theme: Theme,
    ) -> bool {
        let said = zone(mode, rect.width, notice, theme);
        let inner = rect.spec_within_border();
        let filtering = self.is_filtering(mode, is_active);
        let list_area = if filtering {
            Rect { y: (inner.y + 2) as u16, height: (inner.height - 2) as u16, ..inner }
        } else {
            inner
        };
        &&& view.area == rect
        &&& view.border == (if focused {
            theme::border_focused(&theme)
        } else {
            theme::border(&theme)
        })
        &&& view.surface == theme::canvas(&theme)
        &&& view.title@ == self.title_runs(mode, theme)
        &&& view.status@ == said
        &&& view.keys@ == footer_line(
            footer_of(
                worktrees_table(),
                if filtering {
                    FILTER_SECTION@
                } else {
                    KEYS_SECTION@
                },
                theme,
            ),
            diff(rect.width, text_of(said).len() as u16),
            theme,
        )
        &&& match view.filter {
            Some(drawn) => {
                &&& filtering
                &&& is_filter_view(drawn, self.filter, theme)
                &&& drawn.line_area == (Rect { height: 1, ..inner })
                &&& drawn.rule_area == (Rect { y: (inner.y + 1) as u16, height: 1, ..inner })
            },
            None => !filtering,
        }
        &&& view.list_area == list_area
        &&& lines_of(view.rows@) == self.row_lines(list_area, theme)
        &&& view.row_style == theme::text(&theme)
        &&& view.highlight == theme::selected_row(&theme)
        &&& view.selected == self.selected_index
        &&& match view.empty {
            Some((lines, area)) => {
                &&& self.rows().len() == 0
                &&& self.says_why_empty(lines_of(lines@), theme)
                &&& area == middle(list_area, rows_within(lines@.len(), list_area))
            },
            None => self.rows().len() > 0,
        }
        &&& view.scrolls == (self.rows().len() > list_area.height)
        &&& view.bar == theme::rule(&theme)
    }

    /// Whether `lines` say why the pane is empty.
    pub open spec fn says_why_empty(self, lines: Seq<Seq<(Seq<char>, Style)>>, theme: Theme) -> bool {
        exists|state: EmptyState|
            #[trigger] self.is_empty_because(state) && lines == state.notice(theme)
    }

    /// Whether `view` is the list as it is drawn into `rect`: the pane, or one
    /// sentence where there is no room for it.
    pub open spec fn is_drawn(
        self,
        view: WorktreesView,
        rect: Rect,
        mode: InputMode,
        is_active: bool,
        focused: bool,
        notice: Option<Notification>,
        theme: Theme,
    ) -> bool {
        match view {
            WorktreesView::TooSmall { surface, lines, area } => {
                &&& !fits(rect)
                &&& surface == theme::canvas(&theme)
                &&& lines_of(lines@) == too_small(rect, theme)
                &&& area == middle(rect, rows_within(3, rect))
            },
            WorktreesView::Pane(pane) => {
                &&& fits(rect)
                &&& self.is_pane(pane, rect, mode, is_active, focused, notice, theme)
            },
        }
    }

    /// Draws the list into `rect`. `is_active` says whether the list holds the
    /// keyboard; `focused` whether its border should say so.
    pub fn draw(
        &self,
        rect: Rect,
        mode: InputMode,
        is_active: bool,
        focused: bool,
        notice: Option<&Notification>,
        theme: &Theme,
    ) -> (view: WorktreesView)
        requires
            is_countable(rect),
        ensures
            self.is_drawn(
                view,
                rect,
                mode,
                is_active,
                focused,
                match notice {
                    Some(n) => Some(*n),
                    None => None,
                },
                *theme,
            ),
    {
        if !fits(rect) {
            return WorktreesView::TooSmall {
                surface: theme::canvas(theme),
                lines: too_small_lines(rect, theme),
                area: center(rect, Axis::Rows, min_u16(3, rect.height)),
            };
        }
        let shown = self.filtered_items();
        let total: usize = shown.len();
        assert(ints(shown@).len() == shown@.len());
        let in_filter = is_active && matches!(mode, InputMode::Insert) && matches!(
            self.focus,
            Focus::Filter
        );
        let (status, status_width) = status_zone(mode, rect.width, notice, theme);
        let bindings = worktrees_bindings();
        let section = if in_filter {
            FILTER_SECTION
        } else {
            KEYS_SECTION
        };
        let entries = footer_entries(&bindings, section, theme);
        let keys = footer(&entries, minus(rect.width, status_width), theme);
        let title = self.title(total, mode, theme);

        let inner = rect.within_border();
        let (filter, list_area) = if in_filter {
            let (drawn, list_area) = draw_filter(&self.filter, inner, theme);
            (Some(drawn), list_area)
        } else {
            (None, inner)
        };
        let rows = self.draw_rows(&shown, list_area, theme);
        let empty = if total == 0 {
            let state = self.empty_state();
            let lines = state.lines(theme);
            assert(lines_of(lines@).len() == lines@.len());
            assert(self.says_why_empty(lines_of(lines@), *theme));
            let height: u16 = if lines.len() < list_area.height as usize {
                lines.len() as u16
            } else {
                list_area.height
            };
            Some((lines, center(list_area, Axis::Rows, height)))
        } else {
            None
        };
        WorktreesView::Pane(
            PaneView {
                area: rect,
                border: if focused {
                    theme::border_focused(theme)
                } else {
                    theme::border(theme)
                },
                surface: theme::canvas(theme),
                title,
                status,
                keys,
                filter,
                list_area,
                rows,
                row_style: theme::text(theme),
                highlight: theme::selected_row(theme),
                selected: self.selected_index,
                empty,
                scrolls: total > list_area.height as usize,
                bar: theme::rule(theme),
            },
        )
    }
}

/// The title says which row the user is on, of how many, what they filter by once
/// that is settled, and what is going on.
pub proof fn law_the_title_says_where_the_user_is(
    list: WorktreesComponent,
    mode: InputMode,
    theme: Theme,
)
    ensures
        list.selected_index matches Some(i) ==> (i < list.rows().len() ==> list.position() == i
            + 1),
        list.selected_index is None ==> list.position() == 0,
        list.title_runs(mode, theme)[1].0 == "Worktrees"@,
        list.title_runs(mode, theme)[2].0 == " ("@ + decimal_of(list.position()) + "/"@
            + decimal_of(list.rows().len()) + ") "@,
        list.filter.value@.len() > 0 && mode is Normal ==> list.title_runs(mode, theme)[3].0
            == "/"@ + list.filter.value@ + " "@,
        list.waiting_for() matches Some((activity, count)) ==> list.title_runs(mode, theme).last().0
            == activity.verb()@ + "\u{2026} "@ + decimal_of(count as nat) + " "@ + activity.noun()@
            + " "@,
{
}

/// Each row on show is drawn as the space it stands for, in order.
pub proof fn law_each_row_is_drawn_as_its_space(
    list: WorktreesComponent,
    area: Rect,
    theme: Theme,
    i: int,
)
    requires
        0 <= i < list.rows().len(),
    ensures
        ({
            let lines = list.row_lines(area, theme);
            let entry = list.spaces@[list.rows()[i]];
            &&& lines.len() == list.rows().len()
            &&& lines[i].take(4) == row_head(entry.space, theme)
            &&& lines[i].skip(4) == row_names(
                entry.label_parts(),
                columns(
                    list.labels_shown(),
                    if list.rows().len() > area.height {
                        diff(area.width, 1)
                    } else {
                        area.width
                    },
                ),
                theme,
            )
        }),
        list.labels_shown().len() == list.rows().len(),
        list.labels_shown()[i] == list.spaces@[list.rows()[i]].label_parts(),
{
    let entry = list.spaces@[list.rows()[i]];
    let cols = list.row_columns(area);
    let line = list.row_lines(area, theme)[i];
    assert(line == row_head(entry.space, theme) + row_names(entry.label_parts(), cols, theme));
    assert(line.take(4) =~= row_head(entry.space, theme));
    assert(line.skip(4) =~= row_names(entry.label_parts(), cols, theme));
}

/// The pane shows every row on show and marks the one the user is on; where there is
/// no row it says why, and its border says whether it has the keyboard.
pub proof fn law_the_pane_shows_the_rows(
    list: WorktreesComponent,
    view: PaneView,
    rect: Rect,
    mode: InputMode,
    is_active: bool,
    focused: bool,
    notice: Option<Notification>,
    theme: Theme,
)
    requires
        list.is_pane(view, rect, mode, is_active, focused, notice, theme),
    ensures
        view.rows@.len() == list.rows().len(),
        view.selected == list.selected_index,
        view.highlight == theme::selected_row(&theme),
        view.empty is Some <==> list.rows().len() == 0,
        view.scrolls <==> list.rows().len() > view.list_area.height,
        focused ==> view.border == theme::border_focused(&theme),
        !focused ==> view.border == theme::border(&theme),
        view.filter is Some <==> is_active && mode is Insert && list.focus is Filter,
        view.filter matches Some(drawn) ==> drawn.line@[1].0 == list.filter.value@,
        view.area == rect,
        view.status@ == zone(mode, rect.width, notice, theme),
        view.empty matches Some((lines, _)) ==> exists|state: EmptyState|
            #[trigger] list.is_empty_because(state) && lines_of(lines@) == state.notice(theme),
{
    assert(lines_of(view.rows@).len() == view.rows@.len());
}

/// The filter takes the two topmost rows of the pane while it is typed into, and the
/// list has the rest; else the list has all of it.
pub proof fn law_the_filter_takes_two_rows(
    list: WorktreesComponent,
    view: PaneView,
    rect: Rect,
    mode: InputMode,
    is_active: bool,
    focused: bool,
    notice: Option<Notification>,
    theme: Theme,
)
    requires
        fits(rect),
        rect.x + rect.width <= u16::MAX,
        rect.y + rect.height <= u16::MAX,
        list.is_pane(view, rect, mode, is_active, focused, notice, theme),
    ensures
        view.list_area.x == rect.x + 1 && view.list_area.width == rect.width - 2,
        view.filter is None ==> view.list_area.y == rect.y + 1 && view.list_area.height
            == rect.height - 2,
        view.filter matches Some(drawn) ==> {
            &&& drawn.line_area.y == rect.y + 1 && drawn.line_area.height == 1
            &&& drawn.rule_area.y == rect.y + 2 && drawn.rule_area.height == 1
            &&& view.list_area.y == rect.y + 3 && view.list_area.height == rect.height - 4
        },
{
}

/// On a terminal below forty by ten cells one sentence is shown, and on any other
/// the pane.
pub proof fn law_a_small_terminal_shows_a_sentence(
    list: WorktreesComponent,
    view: WorktreesView,
    rect: Rect,
    mode: InputMode,
    is_active: bool,
    focused: bool,
    notice: Option<Notification>,
    theme: Theme,
)
    requires
        list.is_drawn(view, rect, mode, is_active, focused, notice, theme),
    ensures
        view is TooSmall <==> rect.width < 40 || rect.height < 10,
        view is Pane <==> rect.width >= 40 && rect.height >= 10,
{
}

} // verus!
