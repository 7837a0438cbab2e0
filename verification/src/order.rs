//! Putting rows in order: stable, and stated as an order of indices.

use vstd::prelude::*;

use crate::text::to_chars;

verus! {

/// A sort key: a strict weak order, so that two keys may also be level.
pub trait Rank: Sized {
    /// Whether a row with this key stands above one with `other`.
    spec fn before(self, other: Self) -> bool;

    proof fn not_before_itself(a: Self)
        ensures
            !a.before(a),
    ;

    proof fn before_transitive(a: Self, b: Self, c: Self)
        requires
            a.before(b),
            b.before(c),
        ensures
            a.before(c),
    ;

    proof fn not_before_transitive(a: Self, b: Self, c: Self)
        requires
            !a.before(b),
            !b.before(c),
        ensures
            !a.before(c),
    ;

    fn is_before(&self, other: &Self) -> (yes: bool)
        ensures
            yes == self.before(*other),
    ;
}

/// Where row `x` goes in `order`: below every row it does not stand above.
pub open spec fn place_of<K: Rank>(keys: Seq<Option<K>>, order: Seq<int>, x: int) -> int
    decreases order.len(),
{
    if order.len() == 0 {
        0
    } else if keys[x]->0.before(keys[order.last()]->0) {
        place_of(keys, order.drop_last(), x)
    } else {
        order.len() as int
    }
}

/// The first `n` rows that have a key, in the order of their keys; level rows
/// keep the order they came in.
pub open spec fn arranged_to<K: Rank>(keys: Seq<Option<K>>, n: nat) -> Seq<int>
    decreases n,
{
    if n == 0 {
        Seq::empty()
    } else {
        let above = arranged_to(keys, (n - 1) as nat);
        let x = n - 1;
        if keys[x] is Some {
            above.insert(place_of(keys, above, x), x)
        } else {
            above
        }
    }
}

/// Every row that has a key, in order.
pub open spec fn arranged<K: Rank>(keys: Seq<Option<K>>) -> Seq<int> {
    arranged_to(keys, keys.len())
}

/// Indices as integers.
pub open spec fn ints(v: Seq<usize>) -> Seq<int> {
    v.map_values(|i: usize| i as int)
}

/// Rows `order` holds exactly the rows of `keys` below `n` that have a key,
/// each once, sorted, and level rows in the order they came in.
pub open spec fn is_arrangement<K: Rank>(keys: Seq<Option<K>>, n: nat, order: Seq<int>) -> bool {
    &&& forall|i: int| 0 <= i < order.len() ==> 0 <= #[trigger] order[i] < n && keys[order[i]] is Some
    &&& forall|x: int| 0 <= x < n && keys[x] is Some ==> #[trigger] order.contains(x)
    &&& forall|i: int, j: int|
        0 <= i < j < order.len() ==> {
            let a = keys[#[trigger] order[i]]->0;
            let b = keys[#[trigger] order[j]]->0;
            a.before(b) || (!b.before(a) && order[i] < order[j])
        }
}

proof fn lemma_place<K: Rank>(keys: Seq<Option<K>>, n: nat, order: Seq<int>, x: int)
    requires
        is_arrangement(keys, n, order),
        x == n,
        keys[x] is Some,
    ensures
        0 <= place_of(keys, order, x) <= order.len(),
        forall|i: int|
            place_of(keys, order, x) <= i < order.len() ==> keys[x]->0.before(
                keys[#[trigger] order[i]]->0,
            ),
        forall|i: int|
            0 <= i < place_of(keys, order, x) ==> !keys[x]->0.before(keys[#[trigger] order[i]]->0),
{
    lemma_place_upto(keys, n, order, order.len(), x);
    assert(order.take(order.len() as int) =~= order);
}

proof fn lemma_place_upto<K: Rank>(
    keys: Seq<Option<K>>,
    n: nat,
    order: Seq<int>,
    m: nat,
    x: int,
)
    requires
        is_arrangement(keys, n, order),
        x == n,
        keys[x] is Some,
        m <= order.len(),
    ensures
        0 <= place_of(keys, order.take(m as int), x) <= m,
        forall|i: int|
            place_of(keys, order.take(m as int), x) <= i < m ==> keys[x]->0.before(
                keys[#[trigger] order[i]]->0,
            ),
        forall|i: int|
            0 <= i < place_of(keys, order.take(m as int), x) ==> !keys[x]->0.before(
                keys[#[trigger] order[i]]->0,
            ),
    decreases m,
{
    let part = order.take(m as int);
    if m > 0 {
        let last = order[m - 1];
        assert(part.last() == last);
        if keys[x]->0.before(keys[last]->0) {
            assert(part.drop_last() =~= order.take(m - 1));
            lemma_place_upto(keys, n, order, (m - 1) as nat, x);
        } else {
            assert forall|i: int| 0 <= i < m implies !keys[x]->0.before(
                keys[#[trigger] order[i]]->0,
            ) by {
                if i < m - 1 {
                    let a = keys[order[i]]->0;
                    let b = keys[last]->0;
                    if b.before(a) {
                        K::before_transitive(a, b, a);
                        K::not_before_itself(a);
                    }
                    K::not_before_transitive(keys[x]->0, b, a);
                }
            }
        }
    }
}

proof fn lemma_arranged_to<K: Rank>(keys: Seq<Option<K>>, n: nat)
    requires
        n <= keys.len(),
    ensures
        is_arrangement(keys, n, arranged_to(keys, n)),
    decreases n,
{
    if n > 0 {
        let m = (n - 1) as nat;
        let above = arranged_to(keys, m);
        lemma_arranged_to(keys, m);
        let x = n - 1;
        let now = arranged_to(keys, n);
        if keys[x] is Some {
            let p = place_of(keys, above, x);
            lemma_place(keys, m, above, x);
            assert(now == above.insert(p, x));
            assert(now[p] == x);
            assert forall|y: int| 0 <= y < n && keys[y] is Some implies #[trigger] now.contains(y) by {
                if y != x {
                    assert(above.contains(y));
                    let i = choose|i: int| 0 <= i < above.len() && above[i] == y;
                    if i < p {
                        assert(now[i] == y);
                    } else {
                        assert(now[i + 1] == y);
                    }
                }
            }
            assert forall|i: int, j: int| 0 <= i < j < now.len() implies {
                let a = keys[#[trigger] now[i]]->0;
                let b = keys[#[trigger] now[j]]->0;
                a.before(b) || (!b.before(a) && now[i] < now[j])
            } by {
                let oi = if i < p { i } else { i - 1 };
                let oj = if j < p { j } else { j - 1 };
                if i != p && j != p {
                    assert(now[i] == above[oi] && now[j] == above[oj]);
                } else if i == p {
                    assert(now[j] == above[oj]);
                } else {
                    assert(now[i] == above[oi]);
                }
            }
        } else {
            assert forall|y: int| 0 <= y < n && keys[y] is Some implies #[trigger] now.contains(y) by {
                assert(y != x);
            }
        }
    }
}

/// An arrangement holds exactly the rows that have a key, each once, sorted,
/// and rows that are level in the order they came in.
pub proof fn law_arranged<K: Rank>(keys: Seq<Option<K>>)
    ensures
        is_arrangement(keys, keys.len(), arranged(keys)),
        arranged(keys).no_duplicates(),
{
    lemma_arranged_to(keys, keys.len());
    let order = arranged(keys);
    assert forall|i: int, j: int| 0 <= i < order.len() && 0 <= j < order.len() && i != j implies
        order[i] != order[j] by {
        K::not_before_itself(keys[order[i]]->0);
    }
}

/// The rows that have a key, in order.
pub fn arrange<K: Rank>(keys: &Vec<Option<K>>) -> (order: Vec<usize>)
    ensures
        ints(order@) == arranged(keys@),
        forall|i: int| 0 <= i < order@.len() ==> #[trigger] order@[i] < keys@.len(),
{
    let mut order: Vec<usize> = Vec::new();
    let mut n: usize = 0;
    proof {
        assert(ints(order@) =~= arranged_to(keys@, 0));
    }
    while n < keys.len()
        invariant
            n <= keys@.len(),
            ints(order@) == arranged_to(keys@, n as nat),
        decreases keys.len() - n,
    {
        proof {
            lemma_arranged_to(keys@, n as nat);
        }
        let ghost above = ints(order@);
        if let Some(key) = &keys[n] {
            let mut p: usize = order.len();
            assert(above.take(p as int) =~= above);
            assert forall|i: int| 0 <= i < order@.len() implies #[trigger] order@[i] < n && keys@[order@[i] as int] is Some by {
                assert(above[i] == order@[i]);
            }
            let mut moving: bool = p > 0;
            while moving
                invariant
                    n < keys@.len(),
                    keys@[n as int] == Some(*key),
                    p <= order@.len(),
                    moving ==> p > 0,
                    above == ints(order@),
                    forall|i: int| 0 <= i < order@.len() ==> #[trigger] order@[i] < n && keys@[order@[i] as int] is Some,
                    place_of(keys@, above, n as int) == place_of(keys@, above.take(p as int), n as int),
                    !moving ==> place_of(keys@, above, n as int) == p,
                decreases p, moving as int,
            {
                let above_it: usize = order[p - 1];
                assert(above[p - 1] == above_it);
                assert(above.take(p as int).last() == above_it);
                assert(above.take(p as int).drop_last() =~= above.take(p - 1));
                if let Some(other) = &keys[above_it] {
                    if key.is_before(other) {
                        p = p - 1;
                        moving = p > 0;
                    } else {
                        moving = false;
                    }
                }
            }
            order.insert(p, n);
            assert(ints(order@) =~= above.insert(p as int, n as int));
        }
        n = n + 1;
    }
    proof {
        lemma_arranged_to(keys@, keys@.len());
        assert forall|i: int| 0 <= i < order@.len() implies #[trigger] order@[i] < keys@.len() by {
            assert(ints(order@)[i] == order@[i]);
        }
    }
    order
}

// ---------------------------------------------------------------------------
// Text
// ---------------------------------------------------------------------------

/// Whether `a` comes strictly before `b`, character by character.
pub open spec fn text_before(a: Seq<char>, b: Seq<char>) -> bool
    decreases b.len(),
{
    if b.len() == 0 {
        false
    } else if a.len() == 0 {
        true
    } else if a[0] != b[0] {
        a[0] < b[0]
    } else {
        text_before(a.drop_first(), b.drop_first())
    }
}

proof fn lemma_text_before_transitive(a: Seq<char>, b: Seq<char>, c: Seq<char>)
    requires
        text_before(a, b),
        text_before(b, c),
    ensures
        text_before(a, c),
    decreases c.len(),
{
    if a.len() > 0 && a[0] == b[0] && b[0] == c[0] {
        lemma_text_before_transitive(a.drop_first(), b.drop_first(), c.drop_first());
    }
}

proof fn lemma_text_before_total(a: Seq<char>, b: Seq<char>)
    ensures
        text_before(a, b) || text_before(b, a) || a == b,
        !(text_before(a, b) && text_before(b, a)),
        a == b ==> !text_before(a, b),
    decreases b.len(),
{
    if a.len() > 0 && b.len() > 0 && a[0] == b[0] {
        lemma_text_before_total(a.drop_first(), b.drop_first());
        if a.drop_first() == b.drop_first() {
            assert(a =~= seq![a[0]] + a.drop_first());
            assert(b =~= seq![b[0]] + b.drop_first());
        }
    } else if a.len() == 0 && b.len() == 0 {
        assert(a =~= b);
    }
}

/// Texts are ordered as in a dictionary: what comes first is settled by the first
/// character in which they differ, and a text that another one continues comes
/// before it.
pub proof fn law_texts_are_ordered_as_in_a_dictionary(a: Seq<char>, b: Seq<char>, k: int)
    requires
        0 <= k <= a.len(),
        k <= b.len(),
        a.take(k) == b.take(k),
    ensures
        k < a.len() && k < b.len() && a[k] < b[k] ==> text_before(a, b) && !text_before(b, a),
        k == a.len() && k < b.len() ==> text_before(a, b) && !text_before(b, a),
        k == a.len() && k == b.len() ==> !text_before(a, b) && !text_before(b, a),
    decreases k,
{
    if k > 0 {
        assert(a[0] == a.take(k)[0]);
        assert(b[0] == b.take(k)[0]);
        assert(a.drop_first().take(k - 1) =~= a.take(k).drop_first());
        assert(b.drop_first().take(k - 1) =~= b.take(k).drop_first());
        law_texts_are_ordered_as_in_a_dictionary(a.drop_first(), b.drop_first(), k - 1);
    }
}

/// Of two different texts exactly one comes before the other.
pub proof fn law_one_of_two_texts_comes_first(a: Seq<char>, b: Seq<char>)
    ensures
        a != b ==> text_before(a, b) != text_before(b, a),
        !text_before(a, a),
{
    lemma_text_before_total(a, b);
    lemma_text_before_total(a, a);
}

/// Whether `a` comes strictly before `b` in the order of their characters.
pub fn is_text_before(a: &str, b: &str) -> (yes: bool)
    ensures
        yes == text_before(a@, b@),
{
    let left = to_chars(a);
    let right = to_chars(b);
    let mut i: usize = 0;
    assert(left@.skip(0) =~= left@);
    assert(right@.skip(0) =~= right@);
    while i < left.len() && i < right.len() && left[i] == right[i]
        invariant
            left@ == a@,
            right@ == b@,
            i <= left@.len(),
            i <= right@.len(),
            text_before(a@, b@) == text_before(left@.skip(i as int), right@.skip(i as int)),
        decreases left.len() - i,
    {
        assert(left@.skip(i as int).drop_first() =~= left@.skip(i + 1));
        assert(right@.skip(i as int).drop_first() =~= right@.skip(i + 1));
        i = i + 1;
    }
    if i >= right.len() {
        false
    } else if i >= left.len() {
        true
    } else {
        left[i] < right[i]
    }
}

/// Rows are listed by repository name, then by their own name.
pub struct NameRank {
    pub repo: String,
    pub name: String,
}

impl Rank for NameRank {
    open spec fn before(self, other: Self) -> bool {
        text_before(self.repo@, other.repo@) || (self.repo@ == other.repo@ && text_before(
            self.name@,
            other.name@,
        ))
    }

    proof fn not_before_itself(a: Self) {
        lemma_text_before_total(a.repo@, a.repo@);
        lemma_text_before_total(a.name@, a.name@);
    }

    proof fn before_transitive(a: Self, b: Self, c: Self) {
        if text_before(a.repo@, b.repo@) && text_before(b.repo@, c.repo@) {
            lemma_text_before_transitive(a.repo@, b.repo@, c.repo@);
        }
        if text_before(a.name@, b.name@) && text_before(b.name@, c.name@) {
            lemma_text_before_transitive(a.name@, b.name@, c.name@);
        }
    }

    proof fn not_before_transitive(a: Self, b: Self, c: Self) {
        lemma_text_before_total(a.repo@, b.repo@);
        lemma_text_before_total(b.repo@, c.repo@);
        lemma_text_before_total(a.repo@, c.repo@);
        lemma_text_before_total(a.name@, b.name@);
        lemma_text_before_total(b.name@, c.name@);
        lemma_text_before_total(a.name@, c.name@);
        if text_before(c.repo@, b.repo@) && text_before(b.repo@, a.repo@) {
            lemma_text_before_transitive(c.repo@, b.repo@, a.repo@);
        }
        if text_before(c.name@, b.name@) && text_before(b.name@, a.name@) {
            lemma_text_before_transitive(c.name@, b.name@, a.name@);
        }
    }

    fn is_before(&self, other: &Self) -> (yes: bool) {
        if is_text_before(self.repo.as_str(), other.repo.as_str()) {
            true
        } else if self.repo == other.repo {
            is_text_before(self.name.as_str(), other.name.as_str())
        } else {
            false
        }
    }
}

/// Rows are listed by one name.
pub struct TextRank {
    pub text: String,
}

impl Rank for TextRank {
    open spec fn before(self, other: Self) -> bool {
        text_before(self.text@, other.text@)
    }

    proof fn not_before_itself(a: Self) {
        lemma_text_before_total(a.text@, a.text@);
    }

    proof fn before_transitive(a: Self, b: Self, c: Self) {
        lemma_text_before_transitive(a.text@, b.text@, c.text@);
    }

    proof fn not_before_transitive(a: Self, b: Self, c: Self) {
        lemma_text_before_total(a.text@, b.text@);
        lemma_text_before_total(b.text@, c.text@);
        lemma_text_before_total(a.text@, c.text@);
        if text_before(c.text@, b.text@) && text_before(b.text@, a.text@) {
            lemma_text_before_transitive(c.text@, b.text@, a.text@);
        }
    }

    fn is_before(&self, other: &Self) -> (yes: bool) {
        is_text_before(self.text.as_str(), other.text.as_str())
    }
}

/// Rows are listed by how well they match, the best first.
pub struct ScoreRank {
    pub score: u128,
}

impl Rank for ScoreRank {
    open spec fn before(self, other: Self) -> bool {
        self.score > other.score
    }

    proof fn not_before_itself(a: Self) {
    }

    proof fn before_transitive(a: Self, b: Self, c: Self) {
    }

    proof fn not_before_transitive(a: Self, b: Self, c: Self) {
    }

    fn is_before(&self, other: &Self) -> (yes: bool) {
        self.score > other.score
    }
}

/// Spaces are listed by how recently they were committed to; those without a
/// commit come last, by name.
pub struct RecentRank {
    pub committed_at: Option<i64>,
    pub names: NameRank,
}

impl Rank for RecentRank {
    open spec fn before(self, other: Self) -> bool {
        match (self.committed_at, other.committed_at) {
            (Some(a), Some(b)) => a > b,
            (Some(_), None) => true,
            (None, Some(_)) => false,
            (None, None) => self.names.before(other.names),
        }
    }

    proof fn not_before_itself(a: Self) {
        NameRank::not_before_itself(a.names);
    }

    proof fn before_transitive(a: Self, b: Self, c: Self) {
        if a.names.before(b.names) && b.names.before(c.names) {
            NameRank::before_transitive(a.names, b.names, c.names);
        }
    }

    proof fn not_before_transitive(a: Self, b: Self, c: Self) {
        if !a.names.before(b.names) && !b.names.before(c.names) {
            NameRank::not_before_transitive(a.names, b.names, c.names);
        }
    }

    fn is_before(&self, other: &Self) -> (yes: bool) {
        match (self.committed_at, other.committed_at) {
            (Some(a), Some(b)) => a > b,
            (Some(_), None) => true,
            (None, Some(_)) => false,
            (None, None) => self.names.is_before(&other.names),
        }
    }
}

} // verus!
