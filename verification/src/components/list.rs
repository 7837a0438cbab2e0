//! Moving through a list.

use vstd::prelude::*;

verus! {

/// Where a move goes.
#[derive(Debug, Clone, Copy, PartialEq, Eq, Structural)]
pub enum ItemOrder {
    Next,
    Previous,
    First,
    Last,
}

/// Which half of a filtered list holds the keyboard.
#[derive(Debug, Clone, Copy, PartialEq, Eq, Structural)]
pub enum Focus {
    Filter,
    List,
}

/// The row a move from `selected` ends on, in a list of `rows` rows: it stops
/// at either end, starts at the top where nothing is selected, and goes nowhere
/// in an empty list.
pub open spec fn moved(order: ItemOrder, selected: Option<usize>, rows: nat) -> Option<usize> {
    if rows == 0 {
        selected
    } else {
        Some(
            match (order, selected) {
                (ItemOrder::First, _) => 0,
                (ItemOrder::Last, _) => (rows - 1) as usize,
                (_, None) => 0,
                (ItemOrder::Next, Some(i)) => if i + 1 < rows {
                    (i + 1) as usize
                } else {
                    (rows - 1) as usize
                },
                (ItemOrder::Previous, Some(i)) => if i == 0 {
                    0
                } else if i - 1 < rows {
                    (i - 1) as usize
                } else {
                    (rows - 1) as usize
                },
            },
        )
    }
}

/// The row a move from `selected` ends on.
pub fn step(order: ItemOrder, selected: Option<usize>, rows: usize) -> (row: Option<usize>)
    ensures
        row == moved(order, selected, rows as nat),
{
    if rows == 0 {
        return selected;
    }
    let last: usize = rows - 1;
    match (order, selected) {
        (ItemOrder::First, _) => Some(0),
        (ItemOrder::Last, _) => Some(last),
        (_, None) => Some(0),
        (ItemOrder::Next, Some(i)) => if i < last {
            Some(i + 1)
        } else {
            Some(last)
        },
        (ItemOrder::Previous, Some(i)) => if i == 0 {
            Some(0)
        } else if i - 1 < rows {
            Some(i - 1)
        } else {
            Some(last)
        },
    }
}

/// The first of the indices below `n` that `p` holds of.
pub open spec fn first_where(n: nat, p: spec_fn(int) -> bool) -> Option<int>
    decreases n,
{
    if n == 0 {
        None
    } else {
        match first_where((n - 1) as nat, p) {
            Some(i) => Some(i),
            None => if p(n - 1) {
                Some(n - 1)
            } else {
                None
            },
        }
    }
}

/// What is first is below the end, and nothing before it will do.
pub proof fn lemma_first_where(n: nat, p: spec_fn(int) -> bool)
    ensures
        match first_where(n, p) {
            Some(i) => 0 <= i < n && p(i) && forall|k: int| 0 <= k < i ==> !#[trigger] p(k),
            None => forall|k: int| 0 <= k < n ==> !#[trigger] p(k),
        },
    decreases n,
{
    if n > 0 {
        lemma_first_where((n - 1) as nat, p);
    }
}

/// An index that `p` holds of, with none before it, is the first.
pub proof fn lemma_is_first(n: nat, p: spec_fn(int) -> bool, i: int)
    requires
        0 <= i < n,
        p(i),
        forall|k: int| 0 <= k < i ==> !#[trigger] p(k),
    ensures
        first_where(n, p) == Some(i),
{
    lemma_first_where(n, p);
}

/// The items whose mark is set, in order.
pub open spec fn masked<T>(items: Seq<T>, keep: Seq<bool>) -> Seq<T>
    decreases items.len(),
{
    if items.len() == 0 {
        Seq::empty()
    } else if keep.last() {
        masked(items.drop_last(), keep.drop_last()).push(items.last())
    } else {
        masked(items.drop_last(), keep.drop_last())
    }
}

/// Keeps the items whose mark is set.
pub fn retain<T>(items: &mut Vec<T>, keep: &Vec<bool>)
    requires
        old(items)@.len() == keep@.len(),
    ensures
        final(items)@ == masked(old(items)@, keep@),
{
    let ghost all = items@;
    let mut i: usize = 0;
    let mut j: usize = 0;
    assert(all.take(0) =~= Seq::<T>::empty());
    assert(items@ =~= masked(all.take(0), keep@.take(0)) + all.skip(0));
    while j < keep.len()
        invariant
            all.len() == keep@.len(),
            j <= all.len(),
            i <= j,
            i == masked(all.take(j as int), keep@.take(j as int)).len(),
            items@ == masked(all.take(j as int), keep@.take(j as int)) + all.skip(j as int),
        decreases keep.len() - j,
    {
        let ghost kept = masked(all.take(j as int), keep@.take(j as int));
        assert(all.take(j + 1).drop_last() =~= all.take(j as int));
        assert(keep@.take(j + 1).drop_last() =~= keep@.take(j as int));
        assert(all.take(j + 1).last() == all[j as int]);
        assert(keep@.take(j + 1).last() == keep@[j as int]);
        if keep[j] {
            assert(kept + all.skip(j as int) =~= kept.push(all[j as int]) + all.skip(j + 1));
            i = i + 1;
        } else {
            items.remove(i);
            assert(items@ =~= kept + all.skip(j + 1));
        }
        j = j + 1;
    }
    assert(all.take(all.len() as int) =~= all);
    assert(keep@.take(keep@.len() as int) =~= keep@);
    assert(items@ =~= masked(all, keep@));
}

/// Marks set by a test keep what the test holds of.
pub proof fn lemma_masked_filter<T>(items: Seq<T>, keep: Seq<bool>, test: spec_fn(T) -> bool)
    requires
        items.len() == keep.len(),
        forall|i: int| 0 <= i < items.len() ==> keep[i] == test(#[trigger] items[i]),
    ensures
        masked(items, keep) == items.filter(test),
    decreases items.len(),
{
    reveal(Seq::filter);
    if items.len() > 0 {
        let n = items.len() - 1;
        assert forall|i: int| 0 <= i < n implies keep.drop_last()[i] == test(
            #[trigger] items.drop_last()[i],
        ) by {
            assert(items.drop_last()[i] == items[i]);
        }
        lemma_masked_filter(items.drop_last(), keep.drop_last(), test);
        assert(keep[n] == test(items[n]));
    }
}

/// A move ends on a row that is there.
pub proof fn law_a_move_ends_on_a_row(order: ItemOrder, selected: Option<usize>, rows: usize)
    requires
        rows > 0,
    ensures
        moved(order, selected, rows as nat) matches Some(i) && i < rows,
{
}

/// A step goes to the row next to the one it started from, and no further than
/// the ends of the list.
pub proof fn law_a_step_goes_to_the_next_row(i: usize, rows: usize)
    requires
        i < rows,
    ensures
        i + 1 < rows ==> moved(ItemOrder::Next, Some(i), rows as nat) == Some((i + 1) as usize),
        i + 1 == rows ==> moved(ItemOrder::Next, Some(i), rows as nat) == Some(i),
        i > 0 ==> moved(ItemOrder::Previous, Some(i), rows as nat) == Some((i - 1) as usize),
        i == 0 ==> moved(ItemOrder::Previous, Some(i), rows as nat) == Some(i),
{
}

/// A step back undoes a step on, and the other way round, except at an end.
pub proof fn law_a_step_back_undoes_a_step(i: usize, rows: usize)
    requires
        i + 1 < rows,
    ensures
        moved(
            ItemOrder::Previous,
            moved(ItemOrder::Next, Some(i), rows as nat),
            rows as nat,
        ) == Some(i),
        moved(
            ItemOrder::Next,
            moved(ItemOrder::Previous, Some((i + 1) as usize), rows as nat),
            rows as nat,
        ) == Some((i + 1) as usize),
{
}

/// The ends are reached from everywhere, an empty list is not moved in, and a
/// list that nothing is selected in is entered at its top; only going to the
/// end enters it there. A row beyond the end counts as the last.
pub proof fn law_a_list_is_entered_at_its_top(
    order: ItemOrder,
    selected: Option<usize>,
    rows: usize,
)
    ensures
        rows == 0 ==> moved(order, selected, rows as nat) == selected,
        rows > 0 ==> moved(ItemOrder::First, selected, rows as nat) == Some(0usize),
        rows > 0 ==> moved(ItemOrder::Last, selected, rows as nat) == Some((rows - 1) as usize),
        rows > 0 && selected is None && order != ItemOrder::Last ==> moved(
            order,
            selected,
            rows as nat,
        ) == Some(0usize),
        rows > 0 && selected is Some && selected->0 >= rows && order == ItemOrder::Next ==> moved(
            order,
            selected,
            rows as nat,
        ) == Some((rows - 1) as usize),
        rows > 0 && selected is Some && selected->0 > rows && order == ItemOrder::Previous
            ==> moved(order, selected, rows as nat) == Some((rows - 1) as usize),
{
}

} // verus!
