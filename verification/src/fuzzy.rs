//! Finding rows by what was typed.

use vstd::prelude::*;

use crate::order::{arrange, arranged, ints, law_arranged, ScoreRank};
use crate::text::{char_count, is_white, lemma_words, to_chars, views, words, words_of};

verus! {

/// The scorer's working memory: `nucleo_matcher::Matcher`, carried from call to
/// call so that it is made once for each search.
#[verifier::external_type_specification]
#[verifier::external_body]
pub struct ExMatcher(nucleo_matcher::Matcher);

/// What `nucleo_matcher` scores `label` for the search word `word`, with its
/// default configuration, letter case ignored and accents normalised; `None`
/// where it does not match.
pub uninterp spec fn fuzzy_score(word: Seq<char>, label: Seq<char>) -> Option<u32>;

/// The character that `nucleo_matcher` takes for `c` where letter case is
/// ignored.
pub uninterp spec fn folded(c: char) -> char;

/// The character that `nucleo_matcher` takes for `c` where accents are ignored.
pub uninterp spec fn unaccented(c: char) -> char;

/// Whether the standard library counts `c` as a lowercase letter.
pub uninterp spec fn is_lower(c: char) -> bool;

/// The longest word that is scored. The scorer counts in sixteen bits, at most
/// twenty-six for each character and ten more for the first, and can see a
/// character of a word twice unless the word is ASCII.
pub const LONGEST_WORD: usize = 1260;

/// The longest ASCII word that is scored.
pub const LONGEST_ASCII_WORD: usize = 2520;

/// The longest label that is scored: the scorer counts in thirty-two bits, and
/// can count a character as four.
pub const LONGEST_LABEL: usize = 0x3fff_ffff;

/// Whether a word is ASCII throughout.
pub open spec fn is_ascii_word(word: Seq<char>) -> bool {
    forall|i: int| 0 <= i < word.len() ==> '\u{7f}' >= #[trigger] word[i]
}

/// Whether a word asks for accents: then the scorer tells accented letters from
/// plain ones, and otherwise it does not.
pub open spec fn asks_for_accents(word: Seq<char>) -> bool {
    exists|i: int| 0 <= i < word.len() && has_accent(#[trigger] word[i])
}

/// Whether a character of a word is one that accents make.
pub open spec fn has_accent(c: char) -> bool {
    unaccented(folded(c)) != folded(c)
}

/// Whether a character of a label can be taken for `first` by one pass of the
/// scorer and not by the other: the first pass folds every character, and the
/// second leaves a lowercase letter as it is. A long s is an example, which is
/// lowercase and folds to an s.
pub open spec fn is_ambiguous(c: char, first: char) -> bool {
    is_lower(c) && folded(c) != c && folded(c) == folded(first)
}

/// Whether both passes of the scorer agree on where in the label the word can
/// start, which the second relies on. Where accents are ignored they read every
/// character alike; otherwise it is enough that they do so wherever the first
/// character of the word may be found.
pub open spec fn is_steady(word: Seq<char>, label: Seq<char>) -> bool {
    asks_for_accents(word) ==> forall|i: int|
        0 <= i < label.len() ==> !is_ambiguous(#[trigger] label[i], word[0])
}

/// Whether the scorer can take this word and this label.
pub open spec fn is_scorable(word: Seq<char>, label: Seq<char>) -> bool {
    &&& label.len() <= LONGEST_LABEL
    &&& !word.contains(' ')
    &&& if is_ascii_word(word) {
        word.len() <= LONGEST_ASCII_WORD
    } else {
        word.len() <= LONGEST_WORD && is_steady(word, label)
    }
}

/// Calls `nucleo_matcher::chars::to_lower_case`. Claimed of it: the character it
/// returns depends on the given one alone.
#[verifier::external_body]
fn fold(c: char) -> (lower: char)
    ensures
        lower == folded(c),
{
    nucleo_matcher::chars::to_lower_case(c)
}

/// Calls `nucleo_matcher::chars::normalize`. Claimed of it: the character it
/// returns depends on the given one alone.
#[verifier::external_body]
fn unaccent(c: char) -> (plain: char)
    ensures
        plain == unaccented(c),
{
    nucleo_matcher::chars::normalize(c)
}

/// Calls `char::is_lowercase`. Claimed of it: the answer depends on the character
/// alone.
#[verifier::external_body]
fn lowercase(c: char) -> (yes: bool)
    ensures
        yes == is_lower(c),
{
    c.is_lowercase()
}

/// Calls `nucleo_matcher::Matcher::new`; nothing is claimed of what it returns.
#[verifier::external_body]
fn new_matcher() -> nucleo_matcher::Matcher {
    nucleo_matcher::Matcher::new(nucleo_matcher::Config::DEFAULT)
}

/// The score of `label` for one search word.
///
/// Calls `nucleo_matcher::pattern::Pattern::parse` and `Pattern::score`. Claimed
/// of them: the score depends on the word and the label alone, whatever the
/// matcher was used for before.
#[verifier::external_body]
fn word_score(matcher: &mut nucleo_matcher::Matcher, word: &str, label: &str) -> (score: Option<
    u32,
>)
    requires
        is_scorable(word@, label@),
    ensures
        score == fuzzy_score(word@, label@),
{
    matcher.config = nucleo_matcher::Config::DEFAULT;
    let pattern = nucleo_matcher::pattern::Pattern::parse(
        word,
        nucleo_matcher::pattern::CaseMatching::Ignore,
        nucleo_matcher::pattern::Normalization::Smart,
    );
    let mut buffer: Vec<char> = Vec::new();
    pattern.score(nucleo_matcher::Utf32Str::new(label, &mut buffer), matcher)
}

/// How many bytes a character takes in UTF-8.
pub open spec fn utf8_size(c: char) -> nat {
    if '\u{7f}' >= c {
        1
    } else if '\u{7ff}' >= c {
        2
    } else if '\u{ffff}' >= c {
        3
    } else {
        4
    }
}

/// How many bytes a text takes in UTF-8.
pub open spec fn utf8_len(s: Seq<char>) -> nat
    decreases s.len(),
{
    if s.len() == 0 {
        0
    } else {
        utf8_len(s.drop_last()) + utf8_size(s.last())
    }
}

/// The lowest score that counts: words of one or two bytes score low on long
/// labels, so any match of them is taken.
pub open spec fn threshold(word: Seq<char>) -> u32 {
    if utf8_len(word) >= 3 {
        70
    } else {
        1
    }
}

fn lowest_score(word: &str) -> (min: u32)
    ensures
        min == threshold(word@),
{
    let chars = to_chars(word);
    let mut bytes: usize = 0;
    let mut i: usize = 0;
    assert(chars@.take(0) =~= Seq::<char>::empty());
    while i < chars.len() && bytes < 3
        invariant
            i <= chars@.len(),
            bytes <= 6,
            bytes == utf8_len(chars@.take(i as int)),
        decreases chars.len() - i,
    {
        assert(chars@.take(i + 1).drop_last() =~= chars@.take(i as int));
        assert(chars@.take(i + 1).last() == chars@[i as int]);
        let c: char = chars[i];
        let size: usize = if '\u{7f}' >= c {
            1
        } else if '\u{7ff}' >= c {
            2
        } else if '\u{ffff}' >= c {
            3
        } else {
            4
        };
        bytes = bytes + size;
        i = i + 1;
    }
    proof {
        assert(chars@.take(chars@.len() as int) =~= chars@);
        lemma_utf8_len_grows(chars@, i as nat);
    }
    if bytes >= 3 {
        70
    } else {
        1
    }
}

proof fn lemma_utf8_len_grows(s: Seq<char>, n: nat)
    requires
        n <= s.len(),
    ensures
        utf8_len(s.take(n as int)) <= utf8_len(s),
    decreases s.len(),
{
    if n < s.len() {
        assert(s.drop_last().take(n as int) =~= s.take(n as int));
        lemma_utf8_len_grows(s.drop_last(), n);
    } else {
        assert(s.take(n as int) =~= s);
    }
}

/// What one word makes of a label: nothing where the scorer cannot take it.
pub open spec fn score_of(word: Seq<char>, label: Seq<char>) -> Option<u32> {
    if is_scorable(word, label) {
        fuzzy_score(word, label)
    } else {
        None
    }
}

/// What every word makes of a label.
pub open spec fn scores_of(words: Seq<Seq<char>>, label: Seq<char>) -> Seq<Option<u32>> {
    words.map_values(|word: Seq<char>| score_of(word, label))
}

/// The score of a label from what every word made of it: the sum, if every word
/// matched well enough.
pub open spec fn total_of(words: Seq<Seq<char>>, scores: Seq<Option<u32>>) -> Option<int>
    decreases words.len(),
{
    if words.len() == 0 {
        Some(0)
    } else {
        match (total_of(words.drop_last(), scores.drop_last()), scores.last()) {
            (Some(sum), Some(score)) => if score >= threshold(words.last()) {
                Some(sum + score)
            } else {
                None
            },
            _ => None,
        }
    }
}

/// The score of a label from what every word made of it.
pub fn total_score(words: &Vec<String>, scores: &Vec<Option<u32>>) -> (total: Option<u128>)
    requires
        words@.len() == scores@.len(),
    ensures
        match total {
            Some(sum) => total_of(views(words@), scores@) == Some(sum as int),
            None => total_of(views(words@), scores@) is None,
        },
{
    let ghost all = views(words@);
    let mut total: Option<u128> = Some(0);
    let mut i: usize = 0;
    assert(all.take(0) =~= Seq::<Seq<char>>::empty());
    while i < words.len()
        invariant
            all == views(words@),
            words@.len() == scores@.len(),
            i <= words@.len(),
            match total {
                Some(sum) => sum <= i * 0xffff_ffff && total_of(
                    all.take(i as int),
                    scores@.take(i as int),
                ) == Some(sum as int),
                None => total_of(all.take(i as int), scores@.take(i as int)) is None,
            },
        decreases words.len() - i,
    {
        assert(all.take(i + 1).drop_last() =~= all.take(i as int));
        assert(scores@.take(i + 1).drop_last() =~= scores@.take(i as int));
        assert(all.take(i + 1).last() == words@[i as int]@);
        assert(scores@.take(i + 1).last() == scores@[i as int]);
        total = match (total, scores[i]) {
            (Some(sum), Some(score)) => if score >= lowest_score(words[i].as_str()) {
                Some(sum + score as u128)
            } else {
                None
            },
            _ => None,
        };
        i = i + 1;
    }
    assert(all.take(all.len() as int) =~= all);
    assert(scores@.take(scores@.len() as int) =~= scores@);
    total
}

/// The sort key of a label, if it is on offer and every word matches it.
pub open spec fn score_key(words: Seq<Seq<char>>, label: Option<Seq<char>>) -> Option<ScoreRank> {
    match label {
        Some(text) => match total_of(words, scores_of(words, text)) {
            Some(sum) => Some(ScoreRank { score: sum as u128 }),
            None => None,
        },
        None => None,
    }
}

/// The sort keys of a list of labels.
pub open spec fn score_keys(query: Seq<char>, labels: Seq<Option<Seq<char>>>) -> Seq<
    Option<ScoreRank>,
> {
    labels.map_values(|label: Option<Seq<char>>| score_key(words_of(query), label))
}

/// The text of a label that may be missing.
pub open spec fn label_view(label: Option<String>) -> Option<Seq<char>> {
    match label {
        Some(text) => Some(text@),
        None => None,
    }
}

/// The texts of labels that may be missing.
pub open spec fn label_views(labels: Seq<Option<String>>) -> Seq<Option<Seq<char>>> {
    labels.map_values(|label: Option<String>| label_view(label))
}

fn has_space(word: &str) -> (yes: bool)
    ensures
        yes == word@.contains(' '),
{
    let chars = to_chars(word);
    let mut i: usize = 0;
    while i < chars.len()
        invariant
            chars@ == word@,
            i <= chars@.len(),
            forall|k: int| 0 <= k < i ==> chars@[k] != ' ',
        decreases chars.len() - i,
    {
        if chars[i] == ' ' {
            assert(chars@[i as int] == ' ');
            return true;
        }
        i = i + 1;
    }
    false
}

fn ascii_word(word: &str) -> (yes: bool)
    ensures
        yes == is_ascii_word(word@),
{
    let chars = to_chars(word);
    let mut i: usize = 0;
    while i < chars.len()
        invariant
            chars@ == word@,
            i <= chars@.len(),
            forall|k: int| 0 <= k < i ==> '\u{7f}' >= #[trigger] chars@[k],
        decreases chars.len() - i,
    {
        if chars[i] > '\u{7f}' {
            assert(!('\u{7f}' >= word@[i as int]));
            return false;
        }
        i = i + 1;
    }
    true
}

fn accented(word: &Vec<char>) -> (yes: bool)
    ensures
        yes == asks_for_accents(word@),
{
    let mut i: usize = 0;
    while i < word.len()
        invariant
            i <= word@.len(),
            forall|k: int| 0 <= k < i ==> !has_accent(#[trigger] word@[k]),
        decreases word.len() - i,
    {
        let c: char = fold(word[i]);
        if unaccent(c) != c {
            assert(has_accent(word@[i as int]));
            return true;
        }
        i = i + 1;
    }
    false
}

fn steady(word: &str, label: &str) -> (yes: bool)
    ensures
        yes == is_steady(word@, label@),
{
    let needle = to_chars(word);
    if !accented(&needle) {
        return true;
    }
    let first: char = fold(needle[0]);
    let chars = to_chars(label);
    let mut i: usize = 0;
    while i < chars.len()
        invariant
            chars@ == label@,
            asks_for_accents(word@),
            first == folded(word@[0]),
            i <= chars@.len(),
            forall|k: int| 0 <= k < i ==> !is_ambiguous(#[trigger] chars@[k], word@[0]),
        decreases chars.len() - i,
    {
        let c: char = chars[i];
        let lower: char = fold(c);
        if lower == first && lower != c && lowercase(c) {
            assert(is_ambiguous(label@[i as int], word@[0]));
            return false;
        }
        i = i + 1;
    }
    true
}

fn scorable(word: &str, label: &str) -> (yes: bool)
    ensures
        yes == is_scorable(word@, label@),
{
    if char_count(label) > LONGEST_LABEL || has_space(word) {
        false
    } else if ascii_word(word) {
        char_count(word) <= LONGEST_ASCII_WORD
    } else {
        char_count(word) <= LONGEST_WORD && steady(word, label)
    }
}

fn label_score(matcher: &mut nucleo_matcher::Matcher, words: &Vec<String>, label: &str) -> (total:
    Option<u128>)
    ensures
        match total {
            Some(sum) => total_of(views(words@), scores_of(views(words@), label@)) == Some(
                sum as int,
            ),
            None => total_of(views(words@), scores_of(views(words@), label@)) is None,
        },
{
    let mut scores: Vec<Option<u32>> = Vec::new();
    let mut i: usize = 0;
    while i < words.len()
        invariant
            i <= words@.len(),
            scores@ == scores_of(views(words@), label@).take(i as int),
        decreases words.len() - i,
    {
        let word = words[i].as_str();
        let score = if scorable(word, label) {
            word_score(matcher, word, label)
        } else {
            None
        };
        assert(scores_of(views(words@), label@)[i as int] == score_of(word@, label@));
        scores.push(score);
        assert(scores@ =~= scores_of(views(words@), label@).take(i + 1));
        i = i + 1;
    }
    assert(scores@ =~= scores_of(views(words@), label@));
    total_score(words, &scores)
}

/// The rows whose label matches every word of `query`, the best first; rows that
/// match equally well keep the order they came in. A row without a label is not
/// on offer.
pub fn search(query: &str, labels: &Vec<Option<String>>) -> (order: Vec<usize>)
    ensures
        ints(order@) == arranged(score_keys(query@, label_views(labels@))),
        forall|i: int| 0 <= i < order@.len() ==> #[trigger] order@[i] < labels@.len(),
{
    let words = words(query);
    let mut matcher = new_matcher();
    let mut keys: Vec<Option<ScoreRank>> = Vec::new();
    let mut i: usize = 0;
    while i < labels.len()
        invariant
            i <= labels@.len(),
            views(words@) == words_of(query@),
            keys@ == score_keys(query@, label_views(labels@)).take(i as int),
        decreases labels.len() - i,
    {
        let key = match &labels[i] {
            Some(label) => match label_score(&mut matcher, &words, label.as_str()) {
                Some(score) => Some(ScoreRank { score }),
                None => None,
            },
            None => None,
        };
        assert(score_keys(query@, label_views(labels@))[i as int] == score_key(
            words_of(query@),
            label_view(labels@[i as int]),
        ));
        keys.push(key);
        assert(keys@ =~= score_keys(query@, label_views(labels@)).take(i + 1));
        i = i + 1;
    }
    assert(keys@ =~= score_keys(query@, label_views(labels@)));
    arrange(&keys)
}

// ---------------------------------------------------------------------------
// Laws
// ---------------------------------------------------------------------------

/// Whether a word finds a label: the score it makes of it is high enough.
pub open spec fn finds(word: Seq<char>, score: Option<u32>) -> bool {
    score matches Some(n) && n >= threshold(word)
}

/// A label counts only where every word finds it, and then for what they make of
/// it together.
pub proof fn law_every_word_has_to_match(words: Seq<Seq<char>>, scores: Seq<Option<u32>>)
    requires
        words.len() == scores.len(),
    ensures
        total_of(words, scores) is Some <==> forall|k: int|
            0 <= k < words.len() ==> (#[trigger] scores[k]) is Some && scores[k]->0 >= threshold(
                words[k],
            ),
        words.len() > 0 && total_of(words, scores) is Some ==> total_of(words, scores)->0
            == total_of(words.drop_last(), scores.drop_last())->0 + scores.last()->0,
        words.len() == 0 ==> total_of(words, scores) == Some(0int),
    decreases words.len(),
{
    if words.len() > 0 {
        let before = words.drop_last();
        let made = scores.drop_last();
        law_every_word_has_to_match(before, made);
        if forall|k: int|
            0 <= k < words.len() ==> (#[trigger] scores[k]) is Some && scores[k]->0 >= threshold(
                words[k],
            ) {
            assert forall|k: int| 0 <= k < before.len() implies (#[trigger] made[k]) is Some
                && made[k]->0 >= threshold(before[k]) by {
                assert(made[k] == scores[k]);
            }
            assert(scores[words.len() - 1] == scores.last());
        }
        if total_of(words, scores) is Some {
            assert forall|k: int| 0 <= k < words.len() implies (#[trigger] scores[k]) is Some
                && scores[k]->0 >= threshold(words[k]) by {
                if k < before.len() {
                    assert(made[k] == scores[k]);
                }
            }
        }
    }
}

/// A word of three bytes or more has to match well, and so does one of three
/// characters; a single character of ASCII, or two, are found anywhere.
pub proof fn law_only_longer_words_have_to_match_well(word: Seq<char>, score: Option<u32>)
    ensures
        word.len() >= 3 ==> threshold(word) == 70,
        word.len() <= 2 && is_ascii_word(word) ==> threshold(word) == 1,
        utf8_len(word) >= 3 ==> (finds(word, score) <==> score is Some && score->0 >= 70),
        utf8_len(word) < 3 ==> (finds(word, score) <==> score is Some && score->0 >= 1),
{
    reveal_with_fuel(utf8_len, 4);
    if word.len() >= 3 {
        lemma_utf8_len_grows(word, 3);
        let three = word.take(3);
        assert(three.drop_last().drop_last().drop_last().len() == 0);
    } else if word.len() == 2 {
        assert(word.drop_last().drop_last().len() == 0);
        assert(word.drop_last().last() == word[0]);
    }
}

/// A search lists exactly the labels that are on offer and that every word of the
/// query finds, the best first, and equally good ones in the order they came.
pub proof fn law_a_search_lists_what_every_word_finds(
    query: Seq<char>,
    labels: Seq<Option<Seq<char>>>,
    x: int,
)
    requires
        0 <= x < labels.len(),
    ensures
        arranged(score_keys(query, labels)).contains(x) <==> labels[x] is Some && forall|k: int|
            0 <= k < words_of(query).len() ==> finds(
                #[trigger] words_of(query)[k],
                score_of(words_of(query)[k], labels[x]->0),
            ),
{
    let keys = score_keys(query, labels);
    law_arranged(keys);
    let words = words_of(query);
    if let Some(text) = labels[x] {
        let scores = scores_of(words, text);
        law_every_word_has_to_match(words, scores);
        assert(keys[x] == score_key(words, labels[x]));
        assert forall|k: int| 0 <= k < words.len() implies #[trigger] scores[k] == score_of(
            words[k],
            text,
        ) by {
        }
        if keys[x] is Some {
            assert forall|k: int| 0 <= k < words.len() implies finds(
                #[trigger] words[k],
                score_of(words[k], text),
            ) by {
                assert(scores[k] is Some);
            }
        }
        if forall|k: int|
            0 <= k < words.len() ==> finds(#[trigger] words[k], score_of(words[k], text)) {
            assert forall|k: int| 0 <= k < words.len() implies (#[trigger] scores[k]) is Some
                && scores[k]->0 >= threshold(words[k]) by {
                assert(finds(words[k], score_of(words[k], text)));
            }
        }
    }
    let order = arranged(keys);
    if keys[x] is Some {
        assert(order.contains(x));
    }
    if order.contains(x) {
        let i = choose|i: int| 0 <= i < order.len() && order[i] == x;
        assert(keys[order[i]] is Some);
    }
}

/// Of two labels that a search lists, the one that stands above does not match
/// worse, and where they match alike it came first.
pub proof fn law_a_search_lists_the_best_first(
    query: Seq<char>,
    labels: Seq<Option<Seq<char>>>,
    i: int,
    j: int,
)
    requires
        0 <= i < j < arranged(score_keys(query, labels)).len(),
    ensures
        ({
            let order = arranged(score_keys(query, labels));
            let words = words_of(query);
            let above = total_of(words, scores_of(words, labels[order[i]]->0));
            let below = total_of(words, scores_of(words, labels[order[j]]->0));
            &&& above is Some
            &&& below is Some
            &&& above->0 as u128 >= below->0 as u128
            &&& above->0 as u128 == below->0 as u128 ==> order[i] < order[j]
        }),
{
    let keys = score_keys(query, labels);
    law_arranged(keys);
    let order = arranged(keys);
    let words = words_of(query);
    assert(keys[order[i]] == score_key(words, labels[order[i]]));
    assert(keys[order[j]] == score_key(words, labels[order[j]]));
}

/// Every word a user would type is scored, against every label there is: an ASCII
/// word of up to 2520 characters, and any other of up to 1260 that the scorer reads
/// alike in both passes.
pub proof fn law_an_ordinary_word_is_scored(query: Seq<char>, k: int, label: Seq<char>)
    requires
        0 <= k < words_of(query).len(),
        label.len() < 0x4000_0000,
        words_of(query)[k].len() <= 2520,
        (forall|i: int|
            0 <= i < words_of(query)[k].len() ==> '\u{7f}' >= #[trigger] words_of(query)[k][i]) || (
        words_of(query)[k].len() <= 1260 && is_steady(words_of(query)[k], label)),
    ensures
        score_of(words_of(query)[k], label) == fuzzy_score(words_of(query)[k], label),
{
    lemma_words(query);
    let word = words_of(query)[k];
    assert(!word.contains(' ')) by {
        if word.contains(' ') {
            let i = choose|i: int| 0 <= i < word.len() && word[i] == ' ';
            assert(!is_white(words_of(query)[k][i]));
        }
    }
}

/// The score of a label is what its words score together, each of them well enough.
pub proof fn law_scores_add_up(
    words: Seq<Seq<char>>,
    scores: Seq<Option<u32>>,
    word: Seq<char>,
    score: u32,
)
    requires
        words.len() == scores.len(),
        total_of(words, scores) is Some,
        score >= 70,
    ensures
        total_of(words.push(word), scores.push(Some(score))) == Some(
            total_of(words, scores)->0 + score,
        ),
        total_of(Seq::<Seq<char>>::empty(), Seq::<Option<u32>>::empty()) == Some(0int),
{
    assert(words.push(word).drop_last() =~= words);
    assert(scores.push(Some(score)).drop_last() =~= scores);
}

/// A character counts as many bytes as UTF-8 writes it with.
pub proof fn law_a_character_counts_its_bytes(s: Seq<char>, c: char)
    ensures
        utf8_len(s.push(c)) == utf8_len(s) + utf8_size(c),
        utf8_len(Seq::<char>::empty()) == 0,
        c <= '\u{7f}' ==> utf8_size(c) == 1,
        '\u{80}' <= c <= '\u{7ff}' ==> utf8_size(c) == 2,
        '\u{800}' <= c <= '\u{ffff}' ==> utf8_size(c) == 3,
        '\u{10000}' <= c ==> utf8_size(c) == 4,
{
    assert(s.push(c).drop_last() =~= s);
}

} // verus!
