//! The geometry every popup shares, and what a popup asks of the stack.

use vstd::prelude::*;

use crate::screen::{center, diff, lesser, min_u16, minus, Axis, Rect};

verus! {

/// The narrowest terminal the interface is drawn into: about what a row needs
/// once the border and the status glyphs are paid for.
pub const MIN_WIDTH: u16 = 40;

/// The shortest terminal the interface is drawn into.
pub const MIN_HEIGHT: u16 = 10;

/// Which modal is on top, as a value rather than a rendered title.
#[derive(Debug, Clone, Copy, PartialEq, Eq, Structural)]
pub enum ModalKind {
    Repositories,
    CreateWorktree,
    Confirm,
    Help,
    PrWorktree,
    SelectReposDir,
    RecentSpaces,
    Theme,
}

/// Whether `area` is at or above the supported floor.
#[verifier::allow_in_spec]
pub fn fits(area: Rect) -> bool
    returns
        area.width >= MIN_WIDTH && area.height >= MIN_HEIGHT,
{
    area.width >= MIN_WIDTH && area.height >= MIN_HEIGHT
}

/// Whether the far edges of a rectangle can be counted.
pub open spec fn is_countable(area: Rect) -> bool {
    area.x + area.width <= u16::MAX && area.y + area.height <= u16::MAX
}

/// How wide, or how tall, a popup would like to be: a share of the frame, held
/// between a floor and a ceiling. The frame has the last word.
#[derive(Debug, Clone, Copy, PartialEq, Eq, Structural)]
pub struct Extent {
    pub percent: u16,
    pub min: u16,
    pub max: u16,
}

impl Extent {
    /// A share of the frame, held between a floor and a ceiling.
    #[verifier::allow_in_spec]
    pub fn share(percent: u16, min: u16, max: u16) -> Extent
        returns
            (Extent { percent, min, max }),
    {
        Extent { percent, min, max }
    }

    /// Exactly `n` cells, still clipped to the frame.
    #[verifier::allow_in_spec]
    pub fn fixed(n: u16) -> Extent
        returns
            (Extent { percent: 100, min: n, max: n }),
    {
        Extent { percent: 100, min: n, max: n }
    }

    /// The share before any limit.
    pub open spec fn wanted(self, available: u16) -> int {
        available * self.percent / 100
    }

    /// The size to use where there are `available` cells: at least the floor, at
    /// most the ceiling (which wins where the two disagree), and never more than
    /// there is.
    pub open spec fn size(self, available: u16) -> u16 {
        let want = self.wanted(available);
        let low = lesser(self.min, self.max);
        let held = if want < low {
            low as int
        } else if want > self.max {
            self.max as int
        } else {
            want
        };
        lesser(held as u16, available)
    }

    /// The size to use where there are `available` cells.
    pub fn resolve(self, available: u16) -> (size: u16)
        ensures
            size == self.size(available),
            size <= available,
    {
        assert(available * self.percent <= 65535 * 65535) by (nonlinear_arith)
            requires
                available <= 65535,
                self.percent <= 65535,
        ;
        assert(0 <= available * self.percent) by (nonlinear_arith)
            requires
                available >= 0,
                self.percent >= 0,
        ;
        let want: u32 = available as u32 * self.percent as u32 / 100;
        let low: u16 = min_u16(self.min, self.max);
        let held: u16 = if want < low as u32 {
            low
        } else if want > self.max as u32 {
            self.max
        } else {
            want as u16
        };
        min_u16(held, available)
    }
}

/// The rectangle of `width` by `height` cells in the middle of `full`, the odd
/// cell before it.
pub open spec fn centered_in(full: Rect, width: u16, height: u16) -> Rect {
    Rect {
        x: (full.x + (full.width - width + 1) / 2) as u16,
        y: (full.y + (full.height - height + 1) / 2) as u16,
        width,
        height,
    }
}

/// Centres `width` by `height` cells inside `full`, which has the last word on
/// how much there is.
pub fn centered(full: Rect, width: u16, height: u16) -> (area: Rect)
    requires
        is_countable(full),
    ensures
        area == centered_in(full, lesser(width, full.width), lesser(height, full.height)),
        full.holds(area),
{
    let band = center(full, Axis::Rows, min_u16(height, full.height));
    center(band, Axis::Columns, min_u16(width, full.width))
}

/// Where a popup goes: nowhere below the floor, else the middle of the frame.
pub open spec fn popup_in(full: Rect, width: Extent, height: Extent) -> Rect {
    if fits(full) {
        centered_in(full, width.size(full.width), height.size(full.height))
    } else {
        Rect::zero()
    }
}

/// The rectangle a popup gets. Below the floor it is empty, which makes every
/// popup draw nothing there, so that the one message of the base pane stays.
pub fn popup_area(full: Rect, width: Extent, height: Extent) -> (area: Rect)
    requires
        is_countable(full),
    ensures
        area == popup_in(full, width, height),
{
    if !fits(full) {
        return Rect::zero();
    }
    centered(full, width.resolve(full.width), height.resolve(full.height))
}

/// Horizontal breathing room inside a popup, given up step by step as the popup
/// narrows.
#[verifier::allow_in_spec]
pub fn gutter(width: u16) -> u16
    returns
        (if width <= 31 {
            0u16
        } else if width <= 51 {
            1u16
        } else if width <= 79 {
            2u16
        } else {
            4u16
        }),
{
    if width <= 31 {
        0
    } else if width <= 51 {
        1
    } else if width <= 79 {
        2
    } else {
        4
    }
}

/// Where the caret goes when it is wanted at column `col` and row `row`: pinned
/// to the last cell of `area`, and nowhere in an empty one.
pub open spec fn cursor_in(area: Rect, col: int, row: int) -> Option<(u16, u16)> {
    if area.is_empty() {
        None
    } else {
        let last_col = diff(area.right(), 1);
        let last_row = diff(area.bottom(), 1);
        Some(
            (
                if col < last_col {
                    col as u16
                } else {
                    last_col
                },
                if row < last_row {
                    row as u16
                } else {
                    last_row
                },
            ),
        )
    }
}

/// Where the caret goes when it is wanted at `(col, row)`.
pub fn place_cursor(area: Rect, col: u16, row: u16) -> (at: Option<(u16, u16)>)
    ensures
        at == cursor_in(area, col as int, row as int),
{
    if area.is_empty() {
        return None;
    }
    Some((min_u16(col, minus(area.right(), 1)), min_u16(row, minus(area.bottom(), 1))))
}

/// Where the caret goes when it stands behind `before` cells of a row that
/// starts `indent` cells into `area`.
pub fn place_caret(area: Rect, indent: u16, before: usize, row: u16) -> (at: Option<(u16, u16)>)
    ensures
        at == cursor_in(area, area.x + indent + before, row as int),
{
    let start: u32 = area.x as u32 + indent as u32;
    let col: u16 = if before > 65535 || start + before as u32 > 65535 {
        65535
    } else {
        (start + before as u32) as u16
    };
    place_cursor(area, col, row)
}

/// A popup never leaves the frame: it lies inside it, or is empty.
pub proof fn law_a_popup_stays_inside_the_frame(full: Rect, width: Extent, height: Extent)
    requires
        is_countable(full),
    ensures
        fits(full) ==> full.holds(popup_in(full, width, height)),
        !fits(full) ==> popup_in(full, width, height).is_empty(),
{
}

/// A caret that is shown stands inside the area it was wanted in.
pub proof fn law_the_caret_stays_inside_its_area(area: Rect, col: int, row: int)
    requires
        is_countable(area),
        area.x <= col,
        area.y <= row,
        !area.is_empty(),
    ensures
        cursor_in(area, col, row) matches Some(at) && area.x <= at.0 < area.x + area.width
            && area.y <= at.1 < area.y + area.height,
{
}

/// The padding never takes more columns than there are.
pub proof fn law_the_gutter_fits(width: u16)
    ensures
        2 * gutter(width) <= width,
{
}

/// A popup is as large as its share of the frame, but no smaller than its floor, no
/// larger than its ceiling, and never larger than the frame.
pub proof fn law_a_popup_keeps_between_its_limits(extent: Extent, available: u16)
    requires
        extent.min <= extent.max,
    ensures
        ({
            let share = available * extent.percent / 100;
            let size = extent.size(available) as int;
            &&& size <= available
            &&& size <= extent.max
            &&& available >= extent.min ==> size >= extent.min
            &&& extent.min <= share <= extent.max && share <= available ==> size == share
            &&& share < extent.min && extent.min <= available ==> size == extent.min
            &&& share > extent.max && extent.max <= available ==> size == extent.max
            &&& available < extent.min ==> size == available
        }),
{
    assert(available * extent.percent >= 0) by (nonlinear_arith)
        requires
            available >= 0,
            extent.percent >= 0,
    ;
}

/// A popup stands in the middle of the frame: what is left on its two sides differs
/// by one cell at most. Below forty by ten cells there is none.
pub proof fn law_a_popup_stands_in_the_middle(full: Rect, width: Extent, height: Extent)
    requires
        is_countable(full),
    ensures
        ({
            let area = popup_in(full, width, height);
            &&& full.width < 40 || full.height < 10 ==> area.width == 0 || area.height == 0
            &&& full.width >= 40 && full.height >= 10 ==> {
                let left = area.x - full.x;
                let right = full.x + full.width - (area.x + area.width);
                let above = area.y - full.y;
                let below = full.y + full.height - (area.y + area.height);
                &&& area.width == width.size(full.width)
                &&& area.height == height.size(full.height)
                &&& 0 <= left - right <= 1
                &&& 0 <= above - below <= 1
            }
        }),
{
}

/// The caret goes where it is wanted, as long as that is inside the area.
pub proof fn law_the_caret_goes_where_it_is_wanted(area: Rect, col: int, row: int)
    requires
        is_countable(area),
        area.x <= col < area.x + area.width,
        area.y <= row < area.y + area.height,
    ensures
        cursor_in(area, col, row) == Some((col as u16, row as u16)),
{
}

/// The wider a popup, the more room it gives up at its sides: none below 32 columns,
/// four cells from 80 on.
pub proof fn law_a_narrow_popup_gives_up_its_padding(width: u16, wider: u16)
    requires
        width <= wider,
    ensures
        gutter(width) <= gutter(wider),
        width < 32 ==> gutter(width) == 0,
        32 <= width < 52 ==> gutter(width) == 1,
        52 <= width < 80 ==> gutter(width) == 2,
        width >= 80 ==> gutter(width) == 4,
{
}

} // verus!
