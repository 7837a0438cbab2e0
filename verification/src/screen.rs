//! What a frame is made of: styled text, and the rectangles it is drawn into.

use vstd::prelude::*;

use crate::theme::Style;

verus! {

// ---------------------------------------------------------------------------
// Text
// ---------------------------------------------------------------------------

/// A run of text in one style.
#[derive(Debug, PartialEq, Eq)]
pub struct Span {
    pub content: String,
    pub style: Style,
}

impl View for Span {
    type V = (Seq<char>, Style);

    open spec fn view(&self) -> (Seq<char>, Style) {
        (self.content@, self.style)
    }
}

impl Span {
    pub fn styled(text: &str, style: Style) -> (span: Span)
        ensures
            span@ == (text@, style),
    {
        Span { content: text.to_owned(), style }
    }

    pub fn raw(text: &str) -> (span: Span)
        ensures
            span@ == (text@, Style::plain()),
    {
        Span { content: text.to_owned(), style: Style::plain() }
    }
}

/// A line of spans.
#[derive(Debug, PartialEq, Eq)]
pub struct Line {
    pub spans: Vec<Span>,
}

/// The runs of a list of spans.
pub open spec fn runs(spans: Seq<Span>) -> Seq<(Seq<char>, Style)> {
    spans.map_values(|s: Span| s@)
}

impl View for Line {
    type V = Seq<(Seq<char>, Style)>;

    open spec fn view(&self) -> Seq<(Seq<char>, Style)> {
        runs(self.spans@)
    }
}

/// The views of a list of lines.
pub open spec fn lines_of(lines: Seq<Line>) -> Seq<Seq<(Seq<char>, Style)>> {
    lines.map_values(|l: Line| l@)
}

/// The text of a line, without its styles.
pub open spec fn text_of(line: Seq<(Seq<char>, Style)>) -> Seq<char>
    decreases line.len(),
{
    if line.len() == 0 {
        Seq::empty()
    } else {
        text_of(line.drop_last()) + line.last().0
    }
}

impl Line {
    /// A line with nothing on it.
    pub fn empty() -> (line: Line)
        ensures
            line@ == Seq::<(Seq<char>, Style)>::empty(),
    {
        let line = Line { spans: Vec::new() };
        assert(line@ =~= Seq::<(Seq<char>, Style)>::empty());
        line
    }

    /// A line of one run.
    pub fn styled(text: &str, style: Style) -> (line: Line)
        ensures
            line@ == seq![(text@, style)],
    {
        let mut line = Line::empty();
        line.push(text, style);
        assert(line@ =~= seq![(text@, style)]);
        line
    }

    /// Adds a run at the end.
    pub fn push(&mut self, text: &str, style: Style)
        ensures
            final(self)@ == old(self)@.push((text@, style)),
    {
        let ghost before = self@;
        self.spans.push(Span::styled(text, style));
        assert(self@ =~= before.push((text@, style)));
    }

    /// The text of the line, without its styles.
    pub fn text(&self) -> (out: String)
        ensures
            out@ == text_of(self@),
    {
        let mut out = String::new();
        let mut i: usize = 0;
        assert(self@.take(0) =~= Seq::<(Seq<char>, Style)>::empty());
        while i < self.spans.len()
            invariant
                i <= self.spans@.len(),
                out@ == text_of(self@.take(i as int)),
            decreases self.spans.len() - i,
        {
            out.append(self.spans[i].content.as_str());
            assert(self@.take(i + 1).drop_last() =~= self@.take(i as int));
            assert(self@.take(i + 1).last() == self.spans@[i as int]@);
            i = i + 1;
        }
        assert(self@.take(self.spans@.len() as int) =~= self@);
        out
    }
}

/// Adds a line to a list.
pub fn push_line(lines: &mut Vec<Line>, line: Line)
    ensures
        lines_of(final(lines)@) == lines_of(old(lines)@).push(line@),
{
    let ghost before = lines_of(lines@);
    lines.push(line);
    assert(lines_of(lines@) =~= before.push(line@));
}

// ---------------------------------------------------------------------------
// Rectangles
// ---------------------------------------------------------------------------

/// A rectangle of cells.
#[derive(Debug, Clone, Copy, PartialEq, Eq, Structural)]
pub struct Rect {
    pub x: u16,
    pub y: u16,
    pub width: u16,
    pub height: u16,
}

/// The saturating sum of two coordinates.
pub open spec fn sum(a: u16, b: u16) -> u16 {
    if a + b > u16::MAX {
        u16::MAX
    } else {
        (a + b) as u16
    }
}

/// The saturating difference of two sizes.
pub open spec fn diff(a: u16, b: u16) -> u16 {
    if a < b {
        0
    } else {
        (a - b) as u16
    }
}

/// The smaller of two sizes.
pub open spec fn lesser(a: u16, b: u16) -> u16 {
    if a < b {
        a
    } else {
        b
    }
}

pub fn min_u16(a: u16, b: u16) -> (m: u16)
    ensures
        m == lesser(a, b),
{
    if a < b {
        a
    } else {
        b
    }
}

pub fn plus(a: u16, b: u16) -> (s: u16)
    ensures
        s == sum(a, b),
{
    if a > u16::MAX - b {
        u16::MAX
    } else {
        a + b
    }
}

pub fn minus(a: u16, b: u16) -> (d: u16)
    ensures
        d == diff(a, b),
{
    if a < b {
        0
    } else {
        a - b
    }
}

impl Rect {
    #[verifier::allow_in_spec]
    pub fn zero() -> Rect
        returns
            (Rect { x: 0, y: 0, width: 0, height: 0 }),
    {
        Rect { x: 0, y: 0, width: 0, height: 0 }
    }

    #[verifier::allow_in_spec]
    pub fn is_empty(self) -> bool
        returns
            self.width == 0 || self.height == 0,
    {
        self.width == 0 || self.height == 0
    }

    /// The first column to the right of the rectangle.
    pub open spec fn spec_right(self) -> u16 {
        sum(self.x, self.width)
    }

    /// The first row below the rectangle.
    pub open spec fn spec_bottom(self) -> u16 {
        sum(self.y, self.height)
    }

    #[verifier::when_used_as_spec(spec_right)]
    pub fn right(self) -> (r: u16)
        ensures
            r == self.spec_right(),
    {
        plus(self.x, self.width)
    }

    #[verifier::when_used_as_spec(spec_bottom)]
    pub fn bottom(self) -> (b: u16)
        ensures
            b == self.spec_bottom(),
    {
        plus(self.y, self.height)
    }

    /// Whether `inner` lies within this rectangle.
    pub open spec fn holds(self, inner: Rect) -> bool {
        &&& self.x <= inner.x
        &&& self.y <= inner.y
        &&& inner.x + inner.width <= self.x + self.width
        &&& inner.y + inner.height <= self.y + self.height
    }

    /// The rectangle within a border of one cell on every side.
    pub open spec fn spec_within_border(self) -> Rect {
        Rect {
            x: lesser(sum(self.x, 1), self.spec_right()),
            y: lesser(sum(self.y, 1), self.spec_bottom()),
            width: diff(self.width, 2),
            height: diff(self.height, 2),
        }
    }

    /// The rectangle within a border of one cell on every side.
    pub fn within_border(self) -> (inner: Rect)
        ensures
            inner == self.spec_within_border(),
    {
        Rect {
            x: min_u16(plus(self.x, 1), self.right()),
            y: min_u16(plus(self.y, 1), self.bottom()),
            width: minus(self.width, 2),
            height: minus(self.height, 2),
        }
    }
}

// ---------------------------------------------------------------------------
// Layout
// ---------------------------------------------------------------------------

/// How much of an axis one part of a layout asks for.
#[derive(Debug, Clone, Copy, PartialEq, Eq, Structural)]
pub enum Share {
    /// Exactly this many cells.
    Length(u16),
    /// The room that is left, and at least this much.
    AtLeast(u16),
}

impl Share {
    /// The cells this part cannot do without.
    pub open spec fn floor(self) -> nat {
        match self {
            Share::Length(n) => n as nat,
            Share::AtLeast(n) => n as nat,
        }
    }
}

/// What all parts together cannot do without.
pub open spec fn floors(shares: Seq<Share>) -> nat
    decreases shares.len(),
{
    if shares.len() == 0 {
        0
    } else {
        floors(shares.drop_last()) + shares.last().floor()
    }
}

/// How many parts take the room that is left.
pub open spec fn elastic(shares: Seq<Share>) -> nat
    decreases shares.len(),
{
    if shares.len() == 0 {
        0
    } else {
        elastic(shares.drop_last()) + (if shares.last() is AtLeast {
            1nat
        } else {
            0
        })
    }
}

/// The size of part `i` when exactly one part is elastic and everything fits.
pub open spec fn size_of_part(shares: Seq<Share>, room: nat, i: int) -> int {
    match shares[i] {
        Share::Length(n) => n as int,
        Share::AtLeast(n) => room - floors(shares) + n,
    }
}

/// Where part `i` starts, counted from the start of the room.
pub open spec fn start_of_part(shares: Seq<Share>, room: nat, i: int) -> int
    decreases i,
{
    if i <= 0 {
        0
    } else {
        start_of_part(shares, room, i - 1) + size_of_part(shares, room, i - 1)
    }
}

/// Splits `area` into rows from the top, after giving up `margin` columns on
/// each side.
///
/// Calls `ratatui::layout::Layout::vertical(..).areas(..)`. Claimed of it: one
/// rectangle for each share; the rectangles keep the columns of the area within
/// the margin and do not leave its rows, whatever the solver settles on; and
/// where one share is elastic and all of them fit, each gets what it asked for,
/// top to bottom, and the elastic one the rest. Where they do not fit, how the
/// shortage is shared out is left unsaid: the solver walks hash maps seeded anew
/// in every process, so which row gives way need not be the same twice.
#[verifier::external_body]
pub(crate) fn split_rows(area: Rect, margin: u16, shares: &Vec<Share>) -> (rows: Vec<Rect>)
    requires
        margin * 2 <= area.width,
        area.x + area.width <= u16::MAX,
        area.y + area.height <= u16::MAX,
    ensures
        rows@.len() == shares@.len(),
        forall|i: int|
            0 <= i < rows@.len() ==> {
                &&& area.holds(#[trigger] rows@[i])
                &&& rows@[i].x == area.x + margin
                &&& rows@[i].width == area.width - 2 * margin
            },
        elastic(shares@) == 1 && floors(shares@) <= area.height ==> forall|i: int|
            0 <= i < rows@.len() ==> {
                &&& (#[trigger] rows@[i]).y == area.y + start_of_part(
                    shares@,
                    area.height as nat,
                    i,
                )
                &&& rows@[i].height == size_of_part(shares@, area.height as nat, i)
            },
{
    let constraints = shares.iter().map(|share| match share {
        Share::Length(n) => ratatui::layout::Constraint::Length(*n),
        Share::AtLeast(n) => ratatui::layout::Constraint::Min(*n),
    });
    let full = ratatui::layout::Rect::new(area.x, area.y, area.width, area.height);
    ratatui::layout::Layout::vertical(constraints)
        .horizontal_margin(margin)
        .split(full)
        .iter()
        .map(|r| Rect { x: r.x, y: r.y, width: r.width, height: r.height })
        .collect()
}

/// The axis a band is measured along.
#[derive(Debug, Clone, Copy, PartialEq, Eq, Structural)]
pub enum Axis {
    Rows,
    Columns,
}

/// A band of `length` cells in the middle of `area`, along one axis.
///
/// Calls `ratatui::layout::Layout::areas` with `Flex::Center` and one fixed
/// length. Claimed of it: the band has exactly that length, keeps the other
/// axis whole, and lies in the middle of the area, the odd cell before it.
#[verifier::external_body]
pub(crate) fn center(area: Rect, axis: Axis, length: u16) -> (band: Rect)
    requires
        length <= (match axis {
            Axis::Rows => area.height,
            Axis::Columns => area.width,
        }),
        area.x + area.width <= u16::MAX,
        area.y + area.height <= u16::MAX,
    ensures
        axis is Rows ==> band == (Rect {
            x: area.x,
            y: (area.y + (area.height - length + 1) / 2) as u16,
            width: area.width,
            height: length,
        }),
        axis is Columns ==> band == (Rect {
            x: (area.x + (area.width - length + 1) / 2) as u16,
            y: area.y,
            width: length,
            height: area.height,
        }),
{
    let direction = match axis {
        Axis::Rows => ratatui::layout::Direction::Vertical,
        Axis::Columns => ratatui::layout::Direction::Horizontal,
    };
    let full = ratatui::layout::Rect::new(area.x, area.y, area.width, area.height);
    let length = [ratatui::layout::Constraint::Length(length)];
    let layout = ratatui::layout::Layout::new(direction, length);
    let [r] = layout.flex(ratatui::layout::Flex::Center).areas(full);
    Rect { x: r.x, y: r.y, width: r.width, height: r.height }
}

/// Sizes do not wrap round: a sum stops at the largest there is, and a difference at
/// nothing.
pub proof fn law_sizes_stop_at_their_limits(a: u16, b: u16)
    ensures
        a + b <= u16::MAX ==> sum(a, b) == a + b,
        a + b > u16::MAX ==> sum(a, b) == u16::MAX,
        a >= b ==> diff(a, b) == a - b,
        a < b ==> diff(a, b) == 0,
        lesser(a, b) <= a && lesser(a, b) <= b && (lesser(a, b) == a || lesser(a, b) == b),
{
}

/// A border takes one cell on every side.
pub proof fn law_a_border_takes_a_cell_on_every_side(area: Rect)
    requires
        area.x + area.width <= u16::MAX,
        area.y + area.height <= u16::MAX,
        area.width >= 2,
        area.height >= 2,
    ensures
        area.spec_within_border().x == area.x + 1,
        area.spec_within_border().y == area.y + 1,
        area.spec_within_border().width == area.width - 2,
        area.spec_within_border().height == area.height - 2,
{
}

/// Rows of which one takes the room that is left fill the room, if the others fit:
/// each starts where the one before it ends, and the last ends at the end.
pub proof fn law_rows_fill_the_room(shares: Seq<Share>, room: nat, i: int)
    requires
        floors(shares) <= room,
        elastic(shares) == 1,
        0 <= i < shares.len(),
    ensures
        start_of_part(shares, room, 0) == 0,
        start_of_part(shares, room, i + 1) == start_of_part(shares, room, i) + size_of_part(
            shares,
            room,
            i,
        ),
        start_of_part(shares, room, shares.len() as int) == room,
        shares[i] matches Share::Length(n) ==> size_of_part(shares, room, i) == n,
        shares[i] matches Share::AtLeast(n) ==> size_of_part(shares, room, i) >= n,
{
    lemma_start_of_part(shares, room, shares.len() as int);
    assert(shares.take(shares.len() as int) =~= shares);
    assert((room - floors(shares)) * 1 == room - floors(shares));
}

proof fn lemma_start_of_part(shares: Seq<Share>, room: nat, i: int)
    requires
        0 <= i <= shares.len(),
    ensures
        start_of_part(shares, room, i) == floors(shares.take(i)) + (room - floors(shares))
            * elastic(shares.take(i)),
    decreases i,
{
    let spare = room - floors(shares);
    if i > 0 {
        lemma_start_of_part(shares, room, i - 1);
        let now = shares.take(i);
        assert(now.drop_last() =~= shares.take(i - 1));
        assert(now.last() == shares[i - 1]);
        let e = elastic(shares.take(i - 1));
        assert(spare * (e + 1) == spare * e + spare) by (nonlinear_arith);
    } else {
        assert(shares.take(0) =~= Seq::<Share>::empty());
        assert(spare * 0 == 0) by (nonlinear_arith);
    }
}

} // verus!
