//! A line of text the user types into.

use vstd::prelude::*;

use crate::components::modal::{cursor_in, is_countable, place_caret};
use crate::screen::{elastic, floors, split_rows, start_of_part, Line, Rect, Share};
use crate::text::{char_count, insert_char, remove_char, repeat_char, repeated};
use crate::theme::{self, Theme};

verus! {

/// The text, and the caret in it.
#[derive(Debug, PartialEq, Eq)]
pub struct FilterComponent {
    pub value: String,
    /// How many characters stand before the caret.
    pub cursor: usize,
}

/// What a line of text holds: its characters, and those before the caret.
pub open spec fn typed(value: Seq<char>, cursor: nat, c: char) -> (Seq<char>, nat) {
    (value.insert(cursor as int, c), cursor + 1)
}

/// The line after the character before the caret was taken out.
pub open spec fn erased(value: Seq<char>, cursor: nat) -> (Seq<char>, nat) {
    if cursor == 0 {
        (value, cursor)
    } else {
        (value.remove(cursor - 1), (cursor - 1) as nat)
    }
}

impl FilterComponent {
    /// The caret stands in the text or behind it.
    pub open spec fn wf(self) -> bool {
        self.cursor <= self.value@.len()
    }

    pub open spec fn line(self) -> (Seq<char>, nat) {
        (self.value@, self.cursor as nat)
    }

    pub fn new() -> (filter: FilterComponent)
        ensures
            filter.wf(),
            filter.value@ == Seq::<char>::empty(),
            filter.cursor == 0,
    {
        FilterComponent { value: String::new(), cursor: 0 }
    }

    /// Puts a character in at the caret.
    pub fn enter_char(&mut self, c: char)
        requires
            old(self).wf(),
        ensures
            final(self).wf(),
            final(self).line() == typed(old(self).value@, old(self).cursor as nat, c),
    {
        self.value = insert_char(self.value.as_str(), self.cursor, c);
        let n: usize = char_count(self.value.as_str());
        assert(self.cursor < n);
        self.cursor = self.cursor + 1;
    }

    /// Takes out the character before the caret.
    pub fn delete_char(&mut self)
        requires
            old(self).wf(),
        ensures
            final(self).wf(),
            final(self).line() == erased(old(self).value@, old(self).cursor as nat),
    {
        if self.cursor > 0 {
            self.value = remove_char(self.value.as_str(), self.cursor - 1);
            self.cursor = self.cursor - 1;
        }
    }

    /// Empties the line.
    pub fn clear(&mut self)
        ensures
            final(self).wf(),
            final(self).value@ == Seq::<char>::empty(),
            final(self).cursor == 0,
    {
        self.value = String::new();
        self.cursor = 0;
    }

    /// How many characters stand before the caret.
    pub fn cursor_pos(&self) -> (n: usize)
        ensures
            n == self.cursor,
    {
        self.cursor
    }
}

/// A filter as it is drawn above its list.
#[derive(Debug, PartialEq, Eq)]
pub struct FilterView {
    pub line: Line,
    pub line_area: Rect,
    /// The rule between the filter and the list.
    pub rule: Line,
    pub rule_area: Rect,
    pub cursor: Option<(u16, u16)>,
}

/// The rows of a filtered list: the filter, a rule, the list.
pub open spec fn filter_shares() -> Seq<Share> {
    seq![Share::Length(1), Share::Length(1), Share::AtLeast(1)]
}

/// What is drawn of a filter, given where.
pub open spec fn is_filter_view(view: FilterView, filter: FilterComponent, theme: Theme) -> bool {
    &&& view.line@ == seq![
        (" / "@, theme::key(&theme)),
        (filter.value@, theme::text(&theme)),
    ]
    &&& view.rule@ == seq![
        (repeated('\u{2500}', view.rule_area.width as nat), theme::rule(&theme)),
    ]
    &&& view.cursor == cursor_in(
        view.line_area,
        view.line_area.x + 3 + filter.cursor,
        view.line_area.y as int,
    )
}

/// Splits `inner` into a filter and the list below it. The areas are stated
/// exactly where the rows fit; where they do not, each lies within `inner`.
pub fn draw_filter(filter: &FilterComponent, inner: Rect, theme: &Theme) -> (drawn: (
    FilterView,
    Rect,
))
    requires
        is_countable(inner),
    ensures
        is_filter_view(drawn.0, *filter, *theme),
        inner.holds(drawn.0.line_area),
        inner.holds(drawn.0.rule_area),
        inner.holds(drawn.1),
        drawn.1.x == inner.x,
        drawn.1.width == inner.width,
        inner.height >= 3 ==> {
            &&& drawn.0.line_area == (Rect { height: 1, ..inner })
            &&& drawn.0.rule_area == (Rect { y: (inner.y + 1) as u16, height: 1, ..inner })
            &&& drawn.1 == (Rect {
                y: (inner.y + 2) as u16,
                height: (inner.height - 2) as u16,
                ..inner
            })
        },
{
    let mut shares: Vec<Share> = Vec::new();
    shares.push(Share::Length(1));
    shares.push(Share::Length(1));
    shares.push(Share::AtLeast(1));
    proof {
        assert(shares@ =~= filter_shares());
        lemma_filter_rows(inner.height as nat);
    }
    let rows = split_rows(inner, 0, &shares);
    let line_area = rows[0];
    let rule_area = rows[1];
    let mut line = Line::empty();
    line.push(" / ", theme::key(theme));
    line.push(filter.value.as_str(), theme::text(theme));
    assert(line@ =~= seq![(" / "@, theme::key(theme)), (filter.value@, theme::text(theme))]);
    let rule = repeat_char('\u{2500}', rule_area.width as usize);
    let view = FilterView {
        line,
        line_area,
        rule: Line::styled(rule.as_str(), theme::rule(theme)),
        rule_area,
        cursor: place_caret(line_area, 3, filter.cursor_pos(), line_area.y),
    };
    (view, rows[2])
}

proof fn lemma_filter_rows(room: nat)
    ensures
        elastic(filter_shares()) == 1,
        floors(filter_shares()) == 3,
        start_of_part(filter_shares(), room, 0) == 0,
        start_of_part(filter_shares(), room, 1) == 1,
        start_of_part(filter_shares(), room, 2) == 2,
{
    reveal_with_fuel(floors, 4);
    reveal_with_fuel(elastic, 4);
    reveal_with_fuel(start_of_part, 4);
    let s = filter_shares();
    assert(s.drop_last() =~= seq![Share::Length(1), Share::Length(1)]);
    assert(s.drop_last().drop_last() =~= seq![Share::Length(1)]);
    assert(s.drop_last().drop_last().drop_last() =~= Seq::<Share>::empty());
}

/// Taking out the character that was just typed leaves the line as it was.
pub proof fn law_erasing_undoes_typing(value: Seq<char>, cursor: nat, c: char)
    requires
        cursor <= value.len(),
    ensures
        erased(typed(value, cursor, c).0, typed(value, cursor, c).1) == (value, cursor),
{
    assert(value.insert(cursor as int, c).remove(cursor as int) =~= value);
}

/// A character goes in where the caret stands, and the caret ends up behind it;
/// what stood on either side stays as it was.
pub proof fn law_a_character_goes_in_at_the_caret(value: Seq<char>, cursor: nat, c: char)
    requires
        cursor <= value.len(),
    ensures
        typed(value, cursor, c).0 == value.take(cursor as int).push(c) + value.skip(
            cursor as int,
        ),
        typed(value, cursor, c).1 == cursor + 1,
{
    assert(typed(value, cursor, c).0 =~= value.take(cursor as int).push(c) + value.skip(
        cursor as int,
    ));
}

/// What is erased is the one character before the caret; at the start of the
/// line there is none, and nothing changes.
pub proof fn law_the_character_before_the_caret_is_erased(value: Seq<char>, cursor: nat)
    requires
        cursor <= value.len(),
    ensures
        cursor == 0 ==> erased(value, cursor) == (value, cursor),
        cursor > 0 ==> erased(value, cursor).0 == value.take(cursor - 1) + value.skip(
            cursor as int,
        ) && erased(value, cursor).1 == cursor - 1,
{
    if cursor > 0 {
        assert(erased(value, cursor).0 =~= value.take(cursor - 1) + value.skip(cursor as int));
    }
}

/// The line of a filter is its text and its caret.
pub proof fn law_a_line_is_the_text_and_the_caret(filter: FilterComponent)
    ensures
        filter.line().0 == filter.value@,
        filter.line().1 == filter.cursor,
{
}

/// A filter shows what was typed into it, and the caret stands behind as many of its
/// characters as were counted.
pub proof fn law_a_filter_shows_what_was_typed(
    view: FilterView,
    filter: FilterComponent,
    theme: Theme,
)
    requires
        is_filter_view(view, filter, theme),
        is_countable(view.line_area),
    ensures
        view.line@.len() == 2,
        view.line@[0].0 == " / "@,
        view.line@[1].0 == filter.value@,
        view.rule@.len() == 1 && view.rule@[0].0.len() == view.rule_area.width,
        view.line_area.height == 1 && 3 + filter.cursor < view.line_area.width ==> view.cursor
            == Some(((view.line_area.x + 3 + filter.cursor) as u16, view.line_area.y)),
{
}

} // verus!
