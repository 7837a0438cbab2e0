//! What every popup that offers a list shares.

use vstd::prelude::*;

use crate::screen::{elastic, floors, split_rows, start_of_part, Line, Rect, Share};
use crate::components::modal::is_countable;
use crate::theme::Style;

verus! {

/// A popup that offers a list, as it is drawn.
#[derive(Debug, PartialEq, Eq)]
pub struct PickerView {
    pub area: Rect,
    pub border: Style,
    pub surface: Style,
    /// In the middle of the top border.
    pub title: Line,
    pub footer: Line,
    /// What the choice is for.
    pub prompt: Line,
    pub prompt_area: Rect,
    pub rows: Vec<Line>,
    /// What is said where there are no rows.
    pub empty: Option<Line>,
    pub list_area: Rect,
    pub row_style: Style,
    pub highlight: Style,
    /// Stands before the selected row.
    pub marker: &'static str,
    pub selected: Option<usize>,
    /// Whether there are rows off screen, and so a scrollbar.
    pub scrolls: bool,
    pub bar: Style,
    /// A line beneath the list.
    pub note: Option<Line>,
    pub note_area: Option<Rect>,
}

/// The rows of a popup: what it is for, the list, and a line beneath it, if
/// there is one.
pub open spec fn picker_shares(noted: bool) -> Seq<Share> {
    if noted {
        seq![Share::Length(1), Share::AtLeast(1), Share::Length(1)]
    } else {
        seq![Share::Length(1), Share::AtLeast(1)]
    }
}

/// The areas of a popup that offers a list. They are stated exactly where the
/// rows fit; where they do not, each lies within `inner`.
pub fn picker_areas(inner: Rect, noted: bool) -> (areas: (Rect, Rect, Option<Rect>))
    requires
        is_countable(inner),
    ensures
        areas.2 is Some <==> noted,
        inner.holds(areas.0),
        inner.holds(areas.1),
        areas.2 matches Some(note) ==> inner.holds(note) && note.width == inner.width,
        !noted && inner.height >= 2 ==> {
            &&& areas.0 == (Rect { height: 1, ..inner })
            &&& areas.1 == (Rect {
                y: (inner.y + 1) as u16,
                height: (inner.height - 1) as u16,
                ..inner
            })
        },
        noted && inner.height >= 3 ==> {
            &&& areas.0 == (Rect { height: 1, ..inner })
            &&& areas.1 == (Rect {
                y: (inner.y + 1) as u16,
                height: (inner.height - 2) as u16,
                ..inner
            })
            &&& areas.2 == Some(
                Rect { y: (inner.y + inner.height - 1) as u16, height: 1, ..inner },
            )
        },
{
    let mut shares: Vec<Share> = Vec::new();
    shares.push(Share::Length(1));
    shares.push(Share::AtLeast(1));
    if noted {
        shares.push(Share::Length(1));
    }
    proof {
        assert(shares@ =~= picker_shares(noted));
        lemma_picker_rows(inner.height as nat);
    }
    let rows = split_rows(inner, 0, &shares);
    (
        rows[0],
        rows[1],
        if noted {
            Some(rows[2])
        } else {
            None
        },
    )
}

proof fn lemma_picker_rows(room: nat)
    ensures
        elastic(picker_shares(false)) == 1,
        floors(picker_shares(false)) == 2,
        start_of_part(picker_shares(false), room, 0) == 0,
        start_of_part(picker_shares(false), room, 1) == 1,
        elastic(picker_shares(true)) == 1,
        floors(picker_shares(true)) == 3,
        start_of_part(picker_shares(true), room, 0) == 0,
        start_of_part(picker_shares(true), room, 1) == 1,
        start_of_part(picker_shares(true), room, 2) == room - 1,
{
    reveal_with_fuel(floors, 4);
    reveal_with_fuel(elastic, 4);
    reveal_with_fuel(start_of_part, 4);
    let s = picker_shares(true);
    assert(s.drop_last() =~= picker_shares(false));
    assert(picker_shares(false).drop_last() =~= seq![Share::Length(1)]);
    assert(picker_shares(false).drop_last().drop_last() =~= Seq::<Share>::empty());
}

} // verus!
