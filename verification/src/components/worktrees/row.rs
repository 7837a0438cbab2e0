//! One row of the list of spaces: what it says, and the columns it says it in.

use vstd::prelude::*;

use crate::screen::Line;
use crate::text::{
    cell_width, concat, is_plain, is_plain_char, pad_end, padded, repeat_char, repeated,
    same_text, text_width, to_chars, from_chars,
};
use crate::theme::{self, Style, Theme};
use crate::vcs::{Backend, Space};

verus! {

/// Between the repository column and the space column, and in the text a row is
/// filtered on.
pub const SEPARATOR: &'static str = " / ";

/// The cells of the separator.
pub const SEPARATOR_WIDTH: usize = 3;

/// Width of the backend tag column.
pub const BACKEND_WIDTH: usize = 3;

/// Everything left of the repository name: two status cells, a gap, the backend
/// tag, a gap.
pub const PREFIX_WIDTH: usize = 7;

/// A space, and the repository it belongs to as its backend names it.
#[derive(Debug, PartialEq, Eq)]
pub struct SpaceEntry {
    pub repo_name: String,
    /// Root of the repository on disk, as the owning backend reports it.
    pub repo_path: String,
    pub space: Space,
}

impl Clone for SpaceEntry {
    fn clone(&self) -> (copy: Self)
        ensures
            copy == *self,
    {
        SpaceEntry {
            repo_name: self.repo_name.clone(),
            repo_path: self.repo_path.clone(),
            space: self.space.clone(),
        }
    }
}

/// A row's name, in the parts it is drawn from.
#[derive(Debug, PartialEq, Eq)]
pub struct RowLabel {
    pub repo: String,
    /// Missing where the row is the repository's own working copy, which needs
    /// no name beside the repository's.
    pub space: Option<String>,
}

/// The parts of a label.
pub open spec fn parts(label: RowLabel) -> (Seq<char>, Option<Seq<char>>) {
    (
        label.repo@,
        match label.space {
            Some(name) => Some(name@),
            None => None,
        },
    )
}

/// The parts of a list of labels.
pub open spec fn all_parts(labels: Seq<RowLabel>) -> Seq<(Seq<char>, Option<Seq<char>>)> {
    labels.map_values(|label: RowLabel| parts(label))
}

/// A label as one text.
pub open spec fn joined_label(label: (Seq<char>, Option<Seq<char>>)) -> Seq<char> {
    match label.1 {
        Some(name) => label.0 + SEPARATOR@ + name,
        None => label.0,
    }
}

impl SpaceEntry {
    /// Whether this is the repository's own working copy: settled by the path,
    /// since a name can move.
    pub open spec fn is_own_copy(self) -> bool {
        self.space.path@ == self.repo_path@
    }

    /// The parts of this row's label.
    pub open spec fn label_parts(self) -> (Seq<char>, Option<Seq<char>>) {
        (
            self.repo_name@,
            if self.is_own_copy() {
                None
            } else {
                Some(self.space.name@)
            },
        )
    }

    /// What this row spells out, in parts.
    pub fn row_label(&self) -> (label: RowLabel)
        ensures
            parts(label) == self.label_parts(),
    {
        RowLabel {
            repo: self.repo_name.clone(),
            space: if same_text(self.space.path.as_str(), self.repo_path.as_str()) {
                None
            } else {
                Some(self.space.name.clone())
            },
        }
    }

    /// The text this row is filtered on: what the row shows, and no more.
    pub fn label(&self) -> (text: String)
        ensures
            text@ == joined_label(self.label_parts()),
    {
        self.row_label().text()
    }
}

impl RowLabel {
    /// The label as one text, without the padding of any column.
    pub fn text(&self) -> (text: String)
        ensures
            text@ == joined_label(parts(*self)),
    {
        match &self.space {
            Some(name) => {
                let mut text = concat(self.repo.as_str(), SEPARATOR);
                text.append(name.as_str());
                text
            },
            None => self.repo.clone(),
        }
    }
}

// ---------------------------------------------------------------------------
// Cutting and padding
// ---------------------------------------------------------------------------

/// The cells of one character on its own.
pub open spec fn char_width(c: char) -> usize {
    cell_width(seq![c])
}

fn width_of_char(c: char) -> (width: usize)
    ensures
        width == char_width(c),
        is_plain_char(c) ==> width == 1,
{
    let mut text = String::new();
    text.push(c);
    assert(text@ =~= seq![c]);
    text_width(text.as_str())
}

/// How many characters from the start fit into `room` cells.
pub open spec fn fit(s: Seq<char>, room: int) -> nat
    decreases s.len(),
{
    if s.len() == 0 || char_width(s[0]) > room {
        0
    } else {
        1 + fit(s.skip(1), room - char_width(s[0]))
    }
}

/// How many characters from the end fit into `room` cells.
pub open spec fn fit_back(s: Seq<char>, room: int) -> nat
    decreases s.len(),
{
    if s.len() == 0 || char_width(s.last()) > room {
        0
    } else {
        1 + fit_back(s.drop_last(), room - char_width(s.last()))
    }
}

/// A text cut to `max` cells, the head kept and the cut marked. No room yields
/// nothing.
pub open spec fn clipped_end(text: Seq<char>, max: usize) -> Seq<char> {
    if cell_width(text) <= max {
        text
    } else if max == 0 {
        Seq::empty()
    } else {
        text.take(fit(text, max - 1) as int).push('\u{2026}')
    }
}

/// A text cut to `max` cells, the tail kept and the cut marked. No room yields
/// nothing.
pub open spec fn clipped_start(text: Seq<char>, max: usize) -> Seq<char> {
    if cell_width(text) <= max {
        text
    } else if max == 0 {
        Seq::empty()
    } else {
        seq!['\u{2026}'] + text.skip(text.len() - fit_back(text, max - 1))
    }
}

/// `text` cut to `max` cells, keeping the head and marking the cut. Text of one
/// cell for each character fits the column.
pub fn clip_end(text: &str, max: usize) -> (out: String)
    ensures
        out@ == clipped_end(text@, max),
        is_plain(text@) ==> is_plain(out@) && out@ == (if text@.len() <= max {
            text@
        } else if max == 0 {
            Seq::empty()
        } else {
            text@.take(max - 1).push('\u{2026}')
        }),
        is_plain(text@) ==> out@.len() <= max,
{
    if text_width(text) <= max {
        return text.to_owned();
    }
    if max == 0 {
        return String::new();
    }
    let chars = to_chars(text);
    let full: usize = max - 1;
    let mut room: usize = full;
    let mut k: usize = 0;
    assert(chars@.skip(0) =~= chars@);
    let mut going: bool = k < chars.len();
    while going
        invariant
            chars@ == text@,
            k <= chars@.len(),
            going ==> k < chars@.len(),
            room <= full,
            fit(chars@, full as int) == k + fit(chars@.skip(k as int), room as int),
            is_plain(text@) ==> room == full - k,
            !going ==> fit(chars@.skip(k as int), room as int) == 0,
            !going && is_plain(text@) ==> k == chars@.len() || room == 0,
        decreases chars.len() - k, going as int,
    {
        let w: usize = width_of_char(chars[k]);
        assert(chars@.skip(k as int)[0] == chars@[k as int]);
        assert(chars@.skip(k as int).skip(1) =~= chars@.skip(k + 1));
        if w > room {
            going = false;
        } else {
            room = room - w;
            k = k + 1;
            going = k < chars.len();
        }
    }
    let mut out = from_chars(&chars, 0, k);
    assert(out@ =~= text@.take(k as int));
    out.push('\u{2026}');
    out
}

/// `text` cut to `max` cells, keeping the tail and marking the cut: the tail is
/// what stands against the separator.
pub fn clip_start(text: &str, max: usize) -> (out: String)
    ensures
        out@ == clipped_start(text@, max),
        is_plain(text@) ==> is_plain(out@) && out@ == (if text@.len() <= max {
            text@
        } else if max == 0 {
            Seq::empty()
        } else {
            seq!['\u{2026}'] + text@.skip(text@.len() - (max - 1))
        }),
        is_plain(text@) ==> out@.len() <= max,
{
    if text_width(text) <= max {
        return text.to_owned();
    }
    if max == 0 {
        return String::new();
    }
    let chars = to_chars(text);
    let n: usize = chars.len();
    let full: usize = max - 1;
    let mut room: usize = full;
    let mut k: usize = 0;
    assert(chars@.take(n as int) =~= chars@);
    let mut going: bool = k < n;
    while going
        invariant
            chars@ == text@,
            n == chars@.len(),
            k <= n,
            going ==> k < n,
            room <= full,
            fit_back(chars@, full as int) == k + fit_back(chars@.take(n - k), room as int),
            is_plain(text@) ==> room == full - k,
            !going ==> fit_back(chars@.take(n - k), room as int) == 0,
            !going && is_plain(text@) ==> k == n || room == 0,
        decreases n - k, going as int,
    {
        let w: usize = width_of_char(chars[n - 1 - k]);
        assert(chars@.take(n - k).last() == chars@[n - 1 - k]);
        assert(chars@.take(n - k).drop_last() =~= chars@.take(n - k - 1));
        if w > room {
            going = false;
        } else {
            room = room - w;
            k = k + 1;
            going = k < n;
        }
    }
    let tail = from_chars(&chars, n - k, n);
    assert(tail@ =~= text@.skip(n - k));
    let out = concat("\u{2026}", tail.as_str());
    proof {
        reveal_strlit("\u{2026}");
        assert("\u{2026}"@ =~= seq!['\u{2026}']);
    }
    out
}

/// A text pushed to the right of a column.
pub open spec fn pushed(text: Seq<char>, width: usize) -> Seq<char> {
    repeated(
        ' ',
        if cell_width(text) < width {
            (width - cell_width(text)) as nat
        } else {
            0
        },
    ) + text
}

/// `text` pushed to the right of a column of `width` cells.
pub fn pad_start(text: &str, width: usize) -> (out: String)
    ensures
        out@ == pushed(text@, width),
        is_plain(text@) ==> out@.len() == (if text@.len() < width {
            width as nat
        } else {
            text@.len()
        }),
{
    let w: usize = text_width(text);
    let gap: usize = if w < width {
        width - w
    } else {
        0
    };
    concat(repeat_char(' ', gap).as_str(), text)
}

// ---------------------------------------------------------------------------
// Columns
// ---------------------------------------------------------------------------

/// The column widths of a frame's rows.
#[derive(Debug, Clone, Copy, PartialEq, Eq, Structural)]
pub struct RowLayout {
    /// Cells for the repository name, right-aligned against the separator.
    pub repo: usize,
    /// Cells for the space name; none where no row names a space.
    pub space: usize,
}

/// The widest repository name.
pub open spec fn widest_repo(labels: Seq<(Seq<char>, Option<Seq<char>>)>) -> usize
    decreases labels.len(),
{
    if labels.len() == 0 {
        0
    } else {
        let before = widest_repo(labels.drop_last());
        let last = cell_width(labels.last().0);
        if last > before {
            last
        } else {
            before
        }
    }
}

/// The widest space name, if any row names one.
pub open spec fn widest_space(labels: Seq<(Seq<char>, Option<Seq<char>>)>) -> Option<usize>
    decreases labels.len(),
{
    if labels.len() == 0 {
        None
    } else {
        let before = widest_space(labels.drop_last());
        match labels.last().1 {
            Some(name) => if before is Some && before->0 >= cell_width(name) {
                before
            } else {
                Some(cell_width(name))
            },
            None => before,
        }
    }
}

/// The columns for `width` cells. Both names get what they need where both fit;
/// else the one that fits in half the room keeps its width and the other takes
/// what is left.
pub open spec fn columns(labels: Seq<(Seq<char>, Option<Seq<char>>)>, width: u16) -> RowLayout {
    let budget = if width < PREFIX_WIDTH {
        0int
    } else {
        width - PREFIX_WIDTH
    };
    let repo = widest_repo(labels);
    match widest_space(labels) {
        None => RowLayout { repo: budget as usize, space: 0 },
        Some(space) => {
            let room = if budget < SEPARATOR_WIDTH {
                0int
            } else {
                budget - SEPARATOR_WIDTH
            };
            let half = room / 2;
            let column = if repo + space <= room || repo <= half {
                repo as int
            } else if space <= room - half {
                room - space
            } else {
                half
            };
            RowLayout { repo: column as usize, space: (room - column) as usize }
        },
    }
}

impl RowLayout {
    /// Splits `width` between the two name columns.
    pub fn measure(labels: &Vec<RowLabel>, width: u16) -> (cols: RowLayout)
        ensures
            cols == columns(all_parts(labels@), width),
            cols.repo + cols.space <= width,
            cols.space > 0 ==> PREFIX_WIDTH + cols.repo + SEPARATOR_WIDTH + cols.space == width,
    {
        let ghost all = all_parts(labels@);
        let mut repo: usize = 0;
        let mut space: Option<usize> = None;
        let mut i: usize = 0;
        assert(all.take(0) =~= Seq::<(Seq<char>, Option<Seq<char>>)>::empty());
        while i < labels.len()
            invariant
                all == all_parts(labels@),
                i <= labels@.len(),
                repo == widest_repo(all.take(i as int)),
                space == widest_space(all.take(i as int)),
            decreases labels.len() - i,
        {
            assert(all.take(i + 1).drop_last() =~= all.take(i as int));
            assert(all.take(i + 1).last() == parts(labels@[i as int]));
            let w: usize = text_width(labels[i].repo.as_str());
            if w > repo {
                repo = w;
            }
            if let Some(name) = &labels[i].space {
                let w: usize = text_width(name.as_str());
                space = match space {
                    Some(widest) => if widest >= w {
                        Some(widest)
                    } else {
                        Some(w)
                    },
                    None => Some(w),
                };
            }
            i = i + 1;
        }
        assert(all.take(all.len() as int) =~= all);

        let width: usize = width as usize;
        let budget: usize = if width < PREFIX_WIDTH {
            0
        } else {
            width - PREFIX_WIDTH
        };
        match space {
            None => RowLayout { repo: budget, space: 0 },
            Some(space) => {
                let room: usize = if budget < SEPARATOR_WIDTH {
                    0
                } else {
                    budget - SEPARATOR_WIDTH
                };
                let half: usize = room / 2;
                let column: usize = if (repo <= room && space <= room - repo) || repo <= half {
                    repo
                } else if space <= room - half {
                    room - space
                } else {
                    half
                };
                RowLayout { repo: column, space: room - column }
            },
        }
    }
}

/// One long name cannot crowd the other out: where both are cut, the repository
/// column has half the room, rounded down, and the space column the rest; and a
/// name that fits in half the room is never cut.
pub proof fn law_neither_name_is_crowded_out(
    labels: Seq<(Seq<char>, Option<Seq<char>>)>,
    width: u16,
)
    requires
        widest_space(labels) is Some,
        width >= PREFIX_WIDTH + SEPARATOR_WIDTH,
    ensures
        ({
            let room = width - PREFIX_WIDTH - SEPARATOR_WIDTH;
            let repo = widest_repo(labels);
            let space = widest_space(labels)->0;
            let cols = columns(labels, width);
            &&& cols.repo + cols.space == room
            &&& repo + space <= room ==> cols.repo == repo && cols.space >= space
            &&& repo <= room / 2 ==> cols.repo == repo
            &&& space <= room - room / 2 && repo > room / 2 ==> cols.space >= space
            &&& repo > room / 2 && space > room - room / 2 ==> cols.repo == room / 2
        }),
{
}

// ---------------------------------------------------------------------------
// The row
// ---------------------------------------------------------------------------

/// The style of a status mark.
pub open spec fn mark_style(space: Space, upstream: bool, theme: Theme) -> Style {
    theme::tone_text(
        &theme,
        if upstream {
            space.status.upstream.tone
        } else {
            space.status.local.tone
        },
    ).bold()
}

/// What every row starts with: two status marks and the backend tag.
pub open spec fn row_head(space: Space, theme: Theme) -> Seq<(Seq<char>, Style)> {
    seq![
        (space.status.upstream.symbol@, mark_style(space, true, theme)),
        (space.status.local.symbol@, mark_style(space, false, theme)),
        (" "@, Style::plain()),
        (padded(space.backend.label()@, BACKEND_WIDTH as nat) + " "@, theme::muted(&theme)),
    ]
}

/// What a row ends with: the names, in their columns.
pub open spec fn row_names(
    label: (Seq<char>, Option<Seq<char>>),
    cols: RowLayout,
    theme: Theme,
) -> Seq<(Seq<char>, Style)> {
    match label.1 {
        Some(name) if cols.space > 0 => seq![
            (pushed(clipped_start(label.0, cols.repo), cols.repo), theme::secondary(&theme)),
            (SEPARATOR@, theme::muted(&theme)),
            (clipped_end(name, cols.space), theme::text(&theme).bold()),
        ],
        _ => if cols.space > 0 {
            let room = (cols.repo + SEPARATOR_WIDTH + cols.space) as usize;
            seq![(pushed(clipped_end(label.0, room), cols.repo), theme::text(&theme).bold())]
        } else {
            seq![(clipped_end(label.0, cols.repo), theme::text(&theme).bold())]
        },
    }
}

/// One row. Where names are of one cell for each character, the separator falls
/// in the same column on every row, and a row that names no space ends there
/// or runs on into the empty rest of the row.
pub fn space_row(space: &Space, label: &RowLabel, cols: &RowLayout, theme: &Theme) -> (line: Line)
    requires
        cols.repo + SEPARATOR_WIDTH + cols.space <= usize::MAX,
    ensures
        line@ == row_head(*space, *theme) + row_names(parts(*label), *cols, *theme),
        is_plain(label.repo@) && label.space is Some && cols.space > 0
            ==> line@.len() == 7 && line@[4].0.len() == cols.repo && line@[5].0 == SEPARATOR@,
        is_plain(label.repo@) && label.space is None && cols.space > 0 ==> line@.len() == 5
            && line@[4].0.len() == (if label.repo@.len() < cols.repo {
            cols.repo as int
        } else if label.repo@.len() < cols.repo + SEPARATOR_WIDTH + cols.space {
            label.repo@.len() as int
        } else {
            cols.repo + SEPARATOR_WIDTH + cols.space
        }),
        label.space matches Some(name) && is_plain(name@) && cols.space > 0 ==> line@.len() == 7
            && line@[6].0.len() <= cols.space,
{
    let mut line = Line::empty();
    line.push(
        space.status.upstream.symbol.as_str(),
        theme::tone_text(theme, space.status.upstream.tone).bold(),
    );
    line.push(
        space.status.local.symbol.as_str(),
        theme::tone_text(theme, space.status.local.tone).bold(),
    );
    line.push(" ", Style::plain());
    let mut tag = pad_end(space.backend.label(), BACKEND_WIDTH);
    tag.append(" ");
    line.push(tag.as_str(), theme::muted(theme));
    let ghost head = line@;
    assert(head =~= row_head(*space, *theme));

    match &label.space {
        Some(name) if cols.space > 0 => {
            let repo = clip_start(label.repo.as_str(), cols.repo);
            let repo = pad_start(repo.as_str(), cols.repo);
            line.push(repo.as_str(), theme::secondary(theme));
            line.push(SEPARATOR, theme::muted(theme));
            let name = clip_end(name.as_str(), cols.space);
            line.push(name.as_str(), theme::text(theme).bold());
        },
        _ => if cols.space > 0 {
            let room: usize = cols.repo + SEPARATOR_WIDTH + cols.space;
            let name = clip_end(label.repo.as_str(), room);
            let name = pad_start(name.as_str(), cols.repo);
            line.push(name.as_str(), theme::text(theme).bold());
        } else {
            let name = clip_end(label.repo.as_str(), cols.repo);
            line.push(name.as_str(), theme::text(theme).bold());
        },
    }
    assert(line@ =~= row_head(*space, *theme) + row_names(parts(*label), *cols, *theme));
    line
}

/// A row starts with how the space stands to its upstream, then with how its files
/// stand, each in the colour of how bad that is, and then with its backend.
pub proof fn law_a_row_starts_with_its_status(space: Space, theme: Theme)
    ensures
        row_head(space, theme).len() == 4,
        row_head(space, theme)[0].0 == space.status.upstream.symbol@,
        row_head(space, theme)[1].0 == space.status.local.symbol@,
        row_head(space, theme)[0].1 == theme::tone_text(
            &theme,
            space.status.upstream.tone,
        ).bold(),
        row_head(space, theme)[1].1 == theme::tone_text(&theme, space.status.local.tone).bold(),
        row_head(space, theme)[3].0 == padded(
            if space.backend == Backend::Jj {
                "jj"@
            } else {
                "git"@
            },
            3,
        ) + " "@,
{
}

/// A row names the repository, cut at its front where it does not fit, and then the
/// space, cut at its end; a row without a space of its own has the room of both.
pub proof fn law_a_row_names_the_repository_and_the_space(
    label: (Seq<char>, Option<Seq<char>>),
    cols: RowLayout,
    theme: Theme,
)
    requires
        cols.space > 0,
        cols.repo + 3 + cols.space <= usize::MAX,
    ensures
        label.1 matches Some(name) ==> {
            &&& row_names(label, cols, theme).len() == 3
            &&& row_names(label, cols, theme)[0].0 == pushed(
                clipped_start(label.0, cols.repo),
                cols.repo,
            )
            &&& row_names(label, cols, theme)[1].0 == " / "@
            &&& row_names(label, cols, theme)[2].0 == clipped_end(name, cols.space)
        },
        label.1 is None ==> row_names(label, cols, theme).len() == 1 && row_names(
            label,
            cols,
            theme,
        )[0].0 == pushed(
            clipped_end(label.0, (cols.repo + 3 + cols.space) as usize),
            cols.repo,
        ),
{
}

/// The widest name of a column is as wide as one of the names, and no name is wider.
pub proof fn law_a_column_is_as_wide_as_its_widest_name(
    labels: Seq<(Seq<char>, Option<Seq<char>>)>,
)
    ensures
        forall|i: int|
            0 <= i < labels.len() ==> cell_width((#[trigger] labels[i]).0) <= widest_repo(labels),
        labels.len() > 0 ==> exists|i: int|
            0 <= i < labels.len() && cell_width((#[trigger] labels[i]).0) == widest_repo(labels),
        widest_space(labels) is Some <==> exists|i: int|
            0 <= i < labels.len() && (#[trigger] labels[i]).1 is Some,
        widest_space(labels) matches Some(width) ==> {
            &&& forall|i: int|
                0 <= i < labels.len() && (#[trigger] labels[i]).1 is Some ==> cell_width(
                    labels[i].1->0,
                ) <= width
            &&& exists|i: int|
                0 <= i < labels.len() && (#[trigger] labels[i]).1 is Some && cell_width(
                    labels[i].1->0,
                ) == width
        },
    decreases labels.len(),
{
    if labels.len() > 0 {
        let rest = labels.drop_last();
        let n = labels.len() - 1;
        law_a_column_is_as_wide_as_its_widest_name(rest);
        assert forall|i: int| 0 <= i < n implies rest[i] == #[trigger] labels[i] by {}
        if rest.len() > 0 {
            let i = choose|i: int|
                0 <= i < rest.len() && cell_width((#[trigger] rest[i]).0) == widest_repo(rest);
            assert(labels[i] == rest[i]);
        }
        assert(labels[n] == labels.last());
        if widest_space(rest) is Some {
            let i = choose|i: int|
                0 <= i < rest.len() && (#[trigger] rest[i]).1 is Some && cell_width(rest[i].1->0)
                    == widest_space(rest)->0;
            assert(labels[i] == rest[i]);
        }
        if exists|i: int| 0 <= i < labels.len() && (#[trigger] labels[i]).1 is Some {
            let i = choose|i: int| 0 <= i < labels.len() && (#[trigger] labels[i]).1 is Some;
            if i < n {
                assert(rest[i].1 is Some);
            }
        }
    }
}

/// Where no row names a space the whole row is the repository's.
pub proof fn law_a_list_of_repositories_has_one_column(
    labels: Seq<(Seq<char>, Option<Seq<char>>)>,
    width: u16,
)
    requires
        widest_space(labels) is None,
    ensures
        columns(labels, width).space == 0,
        width >= 7 ==> columns(labels, width).repo == width - 7,
        width < 7 ==> columns(labels, width).repo == 0,
{
}

/// The cells the characters of a text take, each on its own.
pub open spec fn cells(s: Seq<char>) -> nat
    decreases s.len(),
{
    if s.len() == 0 {
        0
    } else {
        char_width(s[0]) as nat + cells(s.skip(1))
    }
}

/// A cut keeps as many characters from the start as fit, and not one more.
pub proof fn law_a_cut_keeps_as_many_as_fit(s: Seq<char>, room: nat)
    ensures
        fit(s, room as int) <= s.len(),
        cells(s.take(fit(s, room as int) as int)) <= room,
        fit(s, room as int) < s.len() ==> cells(s.take(fit(s, room as int) as int + 1)) > room,
    decreases s.len(),
{
    if s.len() > 0 && char_width(s[0]) <= room {
        let rest = s.skip(1);
        let left = (room - char_width(s[0])) as nat;
        law_a_cut_keeps_as_many_as_fit(rest, left);
        let n = fit(rest, left as int) as int;
        assert(s.take(n + 1).skip(1) =~= rest.take(n));
        if n < rest.len() {
            assert(s.take(n + 2).skip(1) =~= rest.take(n + 1));
        }
    } else if s.len() > 0 {
        assert(s.take(0) =~= Seq::<char>::empty());
        assert(s.take(1).skip(1) =~= Seq::<char>::empty());
        assert(cells(s.take(1)) == char_width(s[0]) + cells(s.take(1).skip(1)));
    } else {
        assert(s.take(0) =~= Seq::<char>::empty());
    }
}

/// A name that fits is shown whole; a cut one keeps its head or its tail, and an
/// ellipsis stands where it was cut.
pub proof fn law_a_cut_name_is_marked(text: Seq<char>, max: usize)
    ensures
        cell_width(text) <= max ==> clipped_end(text, max) == text && clipped_start(text, max)
            == text,
        cell_width(text) > max && max == 0 ==> clipped_end(text, max).len() == 0 && clipped_start(
            text,
            max,
        ).len() == 0,
        cell_width(text) > max && max > 0 ==> {
            &&& clipped_end(text, max).last() == '\u{2026}'
            &&& clipped_end(text, max).drop_last() == text.take(fit(text, max - 1) as int)
            &&& clipped_start(text, max).first() == '\u{2026}'
            &&& clipped_start(text, max).skip(1) == text.skip(
                text.len() - fit_back(text, max - 1),
            )
        },
{
    if cell_width(text) > max && max > 0 {
        assert(clipped_end(text, max).drop_last() =~= text.take(fit(text, max - 1) as int));
        assert(clipped_start(text, max).skip(1) =~= text.skip(
            text.len() - fit_back(text, max - 1),
        ));
    }
}

/// A text is pushed to the right of its column by blanks alone.
pub proof fn law_a_column_is_filled_before_its_text(text: Seq<char>, width: usize)
    ensures
        cell_width(text) >= width ==> pushed(text, width) == text,
        cell_width(text) < width ==> {
            let gap = width - cell_width(text);
            &&& pushed(text, width).len() == gap + text.len()
            &&& pushed(text, width).skip(gap) == text
            &&& forall|i: int| 0 <= i < gap ==> #[trigger] pushed(text, width)[i] == ' '
        },
{
    if cell_width(text) >= width {
        assert(pushed(text, width) =~= text);
    } else {
        assert(pushed(text, width).skip(width - cell_width(text)) =~= text);
    }
}

proof fn lemma_cells_last(s: Seq<char>)
    requires
        s.len() > 0,
    ensures
        cells(s) == cells(s.drop_last()) + char_width(s.last()) as nat,
    decreases s.len(),
{
    if s.len() == 1 {
        assert(s.skip(1) =~= Seq::<char>::empty());
        assert(s.drop_last() =~= Seq::<char>::empty());
    } else {
        let rest = s.skip(1);
        lemma_cells_last(rest);
        assert(rest.drop_last() =~= s.drop_last().skip(1));
        assert(rest.last() == s.last());
    }
}

/// A cut that keeps the tail keeps as many characters from the end as fit, and not
/// one more.
pub proof fn law_a_cut_from_the_front_keeps_as_many_as_fit(s: Seq<char>, room: nat)
    ensures
        fit_back(s, room as int) <= s.len(),
        cells(s.skip(s.len() - fit_back(s, room as int))) <= room,
        fit_back(s, room as int) < s.len() ==> cells(
            s.skip(s.len() - fit_back(s, room as int) - 1),
        ) > room,
    decreases s.len(),
{
    let all = s.len() as int;
    if s.len() > 0 && char_width(s.last()) <= room {
        let rest = s.drop_last();
        let left = (room - char_width(s.last())) as nat;
        law_a_cut_from_the_front_keeps_as_many_as_fit(rest, left);
        let n = fit_back(rest, left as int) as int;
        let kept = s.skip(all - n - 1);
        assert(kept.drop_last() =~= rest.skip(rest.len() - n));
        assert(kept.last() == s.last());
        lemma_cells_last(kept);
        if n < rest.len() {
            let more = s.skip(all - n - 2);
            assert(more.drop_last() =~= rest.skip(rest.len() - n - 1));
            assert(more.last() == s.last());
            lemma_cells_last(more);
        }
    } else if s.len() > 0 {
        assert(s.skip(all) =~= Seq::<char>::empty());
        let one = s.skip(all - 1);
        assert(one.drop_last() =~= Seq::<char>::empty());
        assert(one.last() == s.last());
        lemma_cells_last(one);
    } else {
        assert(s.skip(0) =~= Seq::<char>::empty());
    }
}

} // verus!
