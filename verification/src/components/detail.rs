//! The detail pane: what a row has no room for, out of the snapshot the list
//! already holds.

use vstd::prelude::*;

use crate::components::modal::{MIN_HEIGHT, MIN_WIDTH};
use crate::screen::{lines_of, push_line, Line, Rect};
use crate::text::{
    concat, decimal, decimal_of, from_chars, pad_end, padded, same_text, to_chars,
};
use crate::theme::{self, Style, Theme};
use crate::vcs::{age_of, elapsed, subject_shown, RemoteState, Space};

verus! {

/// How many rows of fields there are, whether or not each has a value.
pub const FIELD_ROWS: u16 = 5;

/// The pane's full height, borders counted.
pub const HEIGHT: u16 = 7;

/// Whether `area` holds both the list and the pane: the pane is hidden rather
/// than clipped.
#[verifier::allow_in_spec]
pub fn fits(area: Rect) -> bool
    returns
        area.width >= MIN_WIDTH && area.height >= MIN_HEIGHT + HEIGHT,
{
    area.width >= MIN_WIDTH && area.height >= MIN_HEIGHT + HEIGHT
}

/// The pane as it is drawn.
#[derive(Debug, PartialEq, Eq)]
pub struct DetailView {
    pub area: Rect,
    pub border: Style,
    pub title: Line,
    /// The fields, if a space is selected.
    pub rows: Vec<Line>,
    pub rows_area: Rect,
}

/// One field: its name, what it says, and how.
#[derive(Debug, PartialEq, Eq)]
pub struct Field {
    pub label: &'static str,
    pub value: String,
    pub style: Style,
}

/// A field as the rules below speak of it.
pub open spec fn field_view(field: Field) -> (Seq<char>, Seq<char>, Style) {
    (field.label@, field.value@, field.style)
}

/// Fields as the rules below speak of them.
pub open spec fn field_views(fields: Seq<Field>) -> Seq<(Seq<char>, Seq<char>, Style)> {
    fields.map_values(|field: Field| field_view(field))
}

/// How a space stands to its upstream, in words.
pub open spec fn remote_words(remote: RemoteState) -> Seq<char> {
    match remote {
        RemoteState::Unknown => "not checked yet"@,
        RemoteState::Tracking { ahead, behind } => if ahead == 0 && behind == 0 {
            "in sync with upstream"@
        } else if behind == 0 {
            decimal_of(ahead as nat) + " ahead of upstream"@
        } else if ahead == 0 {
            decimal_of(behind as nat) + " behind upstream"@
        } else {
            decimal_of(ahead as nat) + " ahead, "@ + decimal_of(behind as nat)
                + " behind \u{2014} diverged"@
        },
        RemoteState::Gone => "upstream is gone"@,
        RemoteState::Untracked => "no upstream \u{2014} never pushed"@,
    }
}

/// How a space stands to its upstream, in words rather than in a glyph.
pub fn remote_summary(remote: RemoteState) -> (text: String)
    ensures
        text@ == remote_words(remote),
{
    match remote {
        RemoteState::Unknown => "not checked yet".to_owned(),
        RemoteState::Tracking { ahead, behind } => if ahead == 0 && behind == 0 {
            "in sync with upstream".to_owned()
        } else if behind == 0 {
            concat(decimal(ahead).as_str(), " ahead of upstream")
        } else if ahead == 0 {
            concat(decimal(behind).as_str(), " behind upstream")
        } else {
            let mut text = concat(decimal(ahead).as_str(), " ahead, ");
            text.append(decimal(behind).as_str());
            text.append(" behind \u{2014} diverged");
            text
        },
        RemoteState::Gone => "upstream is gone".to_owned(),
        RemoteState::Untracked => "no upstream \u{2014} never pushed".to_owned(),
    }
}

/// What was last done, and when.
pub open spec fn latest(space: Space, now: i64) -> (Seq<char>, Seq<char>) {
    match space.tip {
        Some(tip) => {
            let age = age_of(elapsed(tip.committed_at, now));
            (
                subject_shown(tip.subject@),
                if age == "now"@ {
                    age
                } else {
                    age + " ago"@
                },
            )
        },
        None => ("\u{b7}"@, Seq::empty()),
    }
}

/// The fields, in reading order.
pub open spec fn field_list(space: Space, now: i64, theme: Theme) -> Seq<
    (Seq<char>, Seq<char>, Style),
> {
    seq![
        ("Latest"@, latest(space, now).0, theme::text(&theme)),
        ("When"@, latest(space, now).1, theme::secondary(&theme)),
        ("Remote"@, remote_words(space.status.remote), theme::text(&theme)),
        (
            "Local"@,
            space.status.local.meaning@,
            theme::tone_text(&theme, space.status.local.tone),
        ),
        ("Path"@, space.path@, theme::secondary(&theme)),
    ]
}

/// The fields, in reading order: what was done, how it stands, where it is.
pub fn fields(space: &Space, now: i64, theme: &Theme) -> (fields: Vec<Field>)
    ensures
        field_views(fields@) == field_list(*space, now, *theme),
        fields@.len() == FIELD_ROWS,
{
    let (subject, when) = match &space.tip {
        Some(tip) => {
            let age = tip.age(now);
            let when = if same_text(age.as_str(), "now") {
                age
            } else {
                concat(age.as_str(), " ago")
            };
            (tip.subject_or_placeholder(), when)
        },
        None => ("\u{b7}".to_owned(), String::new()),
    };
    let mut fields: Vec<Field> = Vec::new();
    fields.push(Field { label: "Latest", value: subject, style: theme::text(theme) });
    fields.push(Field { label: "When", value: when, style: theme::secondary(theme) });
    fields.push(
        Field {
            label: "Remote",
            value: remote_summary(space.status.remote),
            style: theme::text(theme),
        },
    );
    fields.push(
        Field {
            label: "Local",
            value: space.status.local.meaning.clone(),
            style: theme::tone_text(theme, space.status.local.tone),
        },
    );
    fields.push(
        Field { label: "Path", value: space.path.clone(), style: theme::secondary(theme) },
    );
    assert(field_views(fields@) =~= field_list(*space, now, *theme));
    fields
}

/// The last `room` characters of a text, what was dropped marked.
pub open spec fn truncated_left(value: Seq<char>, room: nat) -> Seq<char> {
    if value.len() <= room {
        value
    } else if room == 0 {
        Seq::empty()
    } else {
        "\u{2026}"@ + value.skip(value.len() - (room - 1))
    }
}

/// The last `room` characters of `value`, what was dropped marked: the end of a
/// path is what tells it from others. No room yields nothing.
pub fn truncate_left(value: &str, room: usize) -> (out: String)
    ensures
        out@ == truncated_left(value@, room as nat),
        out@.len() <= room,
{
    proof {
        law_a_cut_field_fits(value@, room as nat);
    }
    let chars = to_chars(value);
    let n: usize = chars.len();
    if n <= room {
        return value.to_owned();
    }
    if room == 0 {
        return String::new();
    }
    let kept = from_chars(&chars, n - (room - 1), n);
    assert(kept@ =~= value@.skip(n - (room - 1)));
    concat("\u{2026}", kept.as_str())
}

/// One field as it is drawn: the name in a fixed column, then the value.
pub open spec fn field_runs(field: (Seq<char>, Seq<char>, Style), width: u16, theme: Theme) -> Seq<
    (Seq<char>, Style),
> {
    seq![
        (" "@, theme::muted(&theme)),
        (padded(field.0, 7), theme::muted(&theme)),
        (
            truncated_left(
                field.1,
                if width < 9 {
                    0
                } else {
                    (width - 9) as nat
                },
            ),
            field.2,
        ),
    ]
}

fn field_line(field: &Field, width: u16, theme: &Theme) -> (line: Line)
    ensures
        line@ == field_runs(field_view(*field), width, *theme),
{
    let room: usize = if width < 9 {
        0
    } else {
        width as usize - 9
    };
    let mut line = Line::empty();
    line.push(" ", theme::muted(theme));
    line.push(pad_end(field.label, 7).as_str(), theme::muted(theme));
    line.push(truncate_left(field.value.as_str(), room).as_str(), field.style);
    assert(line@ =~= field_runs(field_view(*field), width, *theme));
    line
}

/// The rows of the pane.
pub open spec fn field_lines(space: Space, now: i64, width: u16, theme: Theme) -> Seq<
    Seq<(Seq<char>, Style)>,
> {
    field_list(space, now, theme).map_values(
        |field: (Seq<char>, Seq<char>, Style)| field_runs(field, width, theme),
    )
}

/// Draws the pane for `space` at the time `now`, in seconds; with nothing
/// selected it is a border and no fields.
pub fn draw(area: Rect, space: Option<&Space>, now: i64, theme: &Theme) -> (view: DetailView)
    ensures
        view.area == area,
        view.border == theme::border(theme),
        view.title@ == seq![
            (" "@, Style::plain()),
            ("Detail"@, theme::title(theme)),
            (" "@, Style::plain()),
        ],
        view.rows_area == area.spec_within_border(),
        lines_of(view.rows@) == (match space {
            Some(space) => field_lines(*space, now, area.spec_within_border().width, *theme),
            None => Seq::empty(),
        }),
{
    let mut title = Line::empty();
    title.push(" ", Style::plain());
    title.push("Detail", theme::title(theme));
    title.push(" ", Style::plain());
    assert(title@ =~= seq![
        (" "@, Style::plain()),
        ("Detail"@, theme::title(theme)),
        (" "@, Style::plain()),
    ]);
    let inner = area.within_border();
    let mut rows: Vec<Line> = Vec::new();
    if let Some(space) = space {
        let list = fields(space, now, theme);
        let ghost wanted = field_lines(*space, now, inner.width, *theme);
        let mut i: usize = 0;
        assert(field_views(list@).len() == list@.len());
        assert(lines_of(rows@) =~= wanted.take(0));
        while i < list.len()
            invariant
                i <= list@.len(),
                wanted == field_lines(*space, now, inner.width, *theme),
                field_views(list@) == field_list(*space, now, *theme),
                wanted.len() == list@.len(),
                lines_of(rows@) == wanted.take(i as int),
            decreases list.len() - i,
        {
            let line = field_line(&list[i], inner.width, theme);
            assert(field_views(list@)[i as int] == field_view(list@[i as int]));
            push_line(&mut rows, line);
            assert(wanted[i as int] == line@);
            assert(lines_of(rows@) =~= wanted.take(i + 1));
            i = i + 1;
        }
        assert(lines_of(rows@) =~= wanted);
    } else {
        assert(lines_of(rows@) =~= Seq::<Seq<(Seq<char>, Style)>>::empty());
    }
    DetailView { area, border: theme::border(theme), title, rows, rows_area: inner }
}

/// A field that is cut is cut to exactly the room there is, and keeps its end.
pub proof fn law_a_cut_field_fits(value: Seq<char>, room: nat)
    ensures
        truncated_left(value, room).len() <= room,
        value.len() > room ==> truncated_left(value, room).len() == room,
        value.len() > 0 && room > 1 ==> truncated_left(value, room).last() == value.last(),
{
    reveal_strlit("\u{2026}");
}

/// The pane has the same number of rows for every space, so the list above it
/// stays where it is.
pub proof fn law_the_pane_keeps_its_height(space: Space, now: i64, width: u16, theme: Theme)
    ensures
        field_lines(space, now, width, theme).len() == FIELD_ROWS,
        FIELD_ROWS + 2 == HEIGHT,
{
}

/// How a space stands to its upstream is told in numbers wherever there are any.
pub proof fn law_the_distance_is_told_in_numbers(ahead: u64, behind: u64)
    ensures
        remote_words(RemoteState::Tracking { ahead: 0, behind: 0 }) == "in sync with upstream"@,
        ahead > 0 ==> remote_words(RemoteState::Tracking { ahead, behind: 0 }) == decimal_of(
            ahead as nat,
        ) + " ahead of upstream"@,
        behind > 0 ==> remote_words(RemoteState::Tracking { ahead: 0, behind }) == decimal_of(
            behind as nat,
        ) + " behind upstream"@,
        ahead > 0 && behind > 0 ==> remote_words(RemoteState::Tracking { ahead, behind })
            == decimal_of(ahead as nat) + " ahead, "@ + decimal_of(behind as nat)
            + " behind \u{2014} diverged"@,
        remote_words(RemoteState::Gone) == "upstream is gone"@,
        remote_words(RemoteState::Untracked) == "no upstream \u{2014} never pushed"@,
        remote_words(RemoteState::Unknown) == "not checked yet"@,
{
}

/// The pane tells of a space what was done in it last and when, how it stands to
/// its upstream and to its files, and where it is, in this order.
pub proof fn law_the_pane_tells_these_things(space: Space, now: i64, theme: Theme)
    ensures
        ({
            let told = field_list(space, now, theme);
            &&& told.len() == 5
            &&& told[0].0 == "Latest"@ && told[1].0 == "When"@ && told[2].0 == "Remote"@
                && told[3].0 == "Local"@ && told[4].0 == "Path"@
            &&& space.tip matches Some(tip) ==> told[0].1 == subject_shown(tip.subject@)
            &&& space.tip matches Some(tip) ==> {
                let age = age_of(elapsed(tip.committed_at, now));
                told[1].1 == (if age == "now"@ {
                    "now"@
                } else {
                    age + " ago"@
                })
            }
            &&& space.tip is None ==> told[0].1 == "\u{b7}"@ && told[1].1.len() == 0
            &&& told[2].1 == remote_words(space.status.remote)
            &&& told[3].1 == space.status.local.meaning@ && told[3].2 == theme::tone_text(
                &theme,
                space.status.local.tone,
            )
            &&& told[4].1 == space.path@
        }),
{
}

/// A value that does not fit keeps its end, which is what tells paths apart, and an
/// ellipsis says that it was cut.
pub proof fn law_a_cut_field_keeps_its_end(value: Seq<char>, room: nat)
    ensures
        value.len() <= room ==> truncated_left(value, room) == value,
        value.len() > room ==> truncated_left(value, room).len() == room,
        value.len() > room && room > 0 ==> truncated_left(value, room)[0] == '\u{2026}'
            && truncated_left(value, room).skip(1) == value.skip(value.len() - room + 1),
{
    reveal_strlit("\u{2026}");
    if value.len() > room && room > 0 {
        assert(truncated_left(value, room).skip(1) =~= value.skip(value.len() - room + 1));
    }
}

/// A field stands in the pane with its name before it, in the room that is left.
pub proof fn law_a_field_stands_beside_its_name(
    field: (Seq<char>, Seq<char>, Style),
    width: u16,
    theme: Theme,
)
    ensures
        field_runs(field, width, theme).len() == 3,
        field_runs(field, width, theme)[1].0 == padded(field.0, 7),
        width >= 9 ==> field_runs(field, width, theme)[2].0 == truncated_left(
            field.1,
            (width - 9) as nat,
        ),
        width < 9 ==> field_runs(field, width, theme)[2].0.len() == 0 || field.1.len() == 0,
        field_runs(field, width, theme)[2].1 == field.2,
{
}

/// The pane is shown where the list keeps its ten rows beside the seven of the pane,
/// and at forty columns or more.
pub proof fn law_the_pane_leaves_room_for_the_list(area: Rect)
    ensures
        fits(area) <==> area.width >= 40 && area.height >= 10 + 7,
{
}

} // verus!
