//! Characters, strings and their width on screen.

use ratatui::text::Span;
use vstd::prelude::*;

verus! {

/// `String::push` appends one character, as its documentation says.
pub assume_specification[ String::push ](s: &mut String, c: char)
    ensures
        final(s)@ == old(s)@.push(c),
;

// ---------------------------------------------------------------------------
// Conversions
// ---------------------------------------------------------------------------

/// The characters of `text`, in order.
pub fn to_chars(text: &str) -> (out: Vec<char>)
    ensures
        out@ == text@,
{
    let mut out: Vec<char> = Vec::new();
    for c in it: text.chars()
        invariant
            it.seq() == text@,
            out@ == text@.take(it.index() as int),
    {
        out.push(c);
    }
    assert(text@.take(text@.len() as int) =~= text@);
    out
}

/// The characters `chars[from..to]` as a string.
pub fn from_chars(chars: &Vec<char>, from: usize, to: usize) -> (out: String)
    requires
        from <= to <= chars@.len(),
    ensures
        out@ == chars@.subrange(from as int, to as int),
{
    let mut out = String::new();
    let mut i: usize = from;
    while i < to
        invariant
            from <= i <= to <= chars@.len(),
            out@ == chars@.subrange(from as int, i as int),
        decreases to - i,
    {
        out.push(chars[i]);
        i = i + 1;
        assert(chars@.subrange(from as int, i as int) =~= chars@.subrange(
            from as int,
            i as int - 1,
        ).push(chars@[i as int - 1]));
    }
    out
}

/// What `char::is_alphanumeric` says of `c`.
pub uninterp spec fn is_alnum(c: char) -> bool;

/// Whether `c` is an ASCII letter or digit.
pub open spec fn is_ascii_alnum(c: char) -> bool {
    'a' <= c <= 'z' || 'A' <= c <= 'Z' || '0' <= c <= '9'
}

/// Whether `c` is a letter or a digit.
///
/// Calls `char::is_alphanumeric`, which goes by the Unicode tables. Claimed of
/// it: the answer depends on the character alone, and of ASCII it takes the
/// letters and the digits and nothing else.
#[verifier::external_body]
pub(crate) fn is_letter_or_digit(c: char) -> (yes: bool)
    ensures
        yes == is_alnum(c),
        '\u{7f}' >= c ==> yes == is_ascii_alnum(c),
{
    c.is_alphanumeric()
}

/// What `char::to_uppercase` makes of `c`.
pub uninterp spec fn upper_of(c: char) -> Seq<char>;

/// `c` in upper case, which may take several characters.
///
/// Calls `char::to_uppercase`, which goes by the Unicode tables. Claimed of it:
/// the result depends on the character alone, and a small ASCII letter becomes
/// the capital of the same letter.
#[verifier::external_body]
pub(crate) fn uppercase(c: char) -> (out: String)
    ensures
        out@ == upper_of(c),
        'a' <= c <= 'z' ==> out@ == seq![((c as u32 - 32) as u32) as char],
{
    c.to_uppercase().collect()
}

/// How many characters `text` holds.
pub fn char_count(text: &str) -> (n: usize)
    ensures
        n == text@.len(),
{
    text.unicode_len()
}

/// Whether two strings hold the same characters.
pub fn same_text(a: &str, b: &str) -> (same: bool)
    ensures
        same == (a@ == b@),
{
    let left = to_chars(a);
    let right = to_chars(b);
    if left.len() != right.len() {
        return false;
    }
    let mut i: usize = 0;
    while i < left.len()
        invariant
            left@ == a@,
            right@ == b@,
            i <= left@.len() == right@.len(),
            forall|k: int| 0 <= k < i ==> left@[k] == right@[k],
        decreases left.len() - i,
    {
        if left[i] != right[i] {
            return false;
        }
        i = i + 1;
    }
    assert(left@ =~= right@);
    true
}

/// `count` copies of `c`.
pub open spec fn repeated(c: char, count: nat) -> Seq<char> {
    Seq::new(count, |i: int| c)
}

/// A string of `count` copies of `c`.
pub fn repeat_char(c: char, count: usize) -> (out: String)
    ensures
        out@ == repeated(c, count as nat),
{
    let mut out = String::new();
    let mut i: usize = 0;
    while i < count
        invariant
            i <= count,
            out@ == repeated(c, i as nat),
        decreases count - i,
    {
        out.push(c);
        i = i + 1;
        assert(repeated(c, i as nat) =~= repeated(c, (i - 1) as nat).push(c));
    }
    out
}

/// What `format!("{:?}", text)` writes for `text`.
pub uninterp spec fn debug_of(text: Seq<char>) -> Seq<char>;

/// `text` in double quotes, with what cannot stand between them escaped.
///
/// Calls the `Debug` formatting of `str`. Claimed of it: the result depends on
/// the characters alone, and printable ASCII without a quote or a backslash is
/// only put in quotes.
#[verifier::external_body]
pub(crate) fn quoted(text: &str) -> (out: String)
    ensures
        out@ == debug_of(text@),
        (forall|i: int|
            0 <= i < text@.len() ==> ' ' <= #[trigger] text@[i] <= '~' && text@[i] != '"'
                && text@[i] != '\\') ==> out@ == seq!['"'] + text@ + seq!['"'],
{
    format!("{:?}", text)
}

/// What `String::from_utf8_lossy` makes of some bytes.
pub uninterp spec fn lossy_text(bytes: Seq<u8>) -> Seq<char>;

/// Bytes as text, whatever they are.
///
/// Calls `String::from_utf8_lossy`. Claimed of it: the result depends on the
/// bytes alone, and bytes that are ASCII come out as the same characters.
#[verifier::external_body]
pub(crate) fn lossy(bytes: &[u8]) -> (text: String)
    ensures
        text@ == lossy_text(bytes@),
        (forall|i: int| 0 <= i < bytes@.len() ==> #[trigger] bytes@[i] < 128) ==> text@ == Seq::new(
            bytes@.len(),
            |i: int| bytes@[i] as char,
        ),
{
    String::from_utf8_lossy(bytes).into_owned()
}

/// `a` followed by `b`.
pub fn concat(a: &str, b: &str) -> (out: String)
    ensures
        out@ == a@ + b@,
{
    let mut out = a.to_owned();
    out.append(b);
    out
}

// ---------------------------------------------------------------------------
// Numbers
// ---------------------------------------------------------------------------

/// The decimal digit `d` as a character.
pub open spec fn digit(d: int) -> char
    recommends
        0 <= d < 10,
{
    seq!['0', '1', '2', '3', '4', '5', '6', '7', '8', '9'][d]
}

/// `n` in decimal, without leading zeros.
pub open spec fn decimal_of(n: nat) -> Seq<char>
    decreases n,
{
    if n < 10 {
        seq![digit(n as int)]
    } else {
        decimal_of(n / 10).push(digit((n % 10) as int))
    }
}

fn digit_char(d: u64) -> (c: char)
    requires
        d < 10,
    ensures
        c == digit(d as int),
{
    match d {
        0 => '0',
        1 => '1',
        2 => '2',
        3 => '3',
        4 => '4',
        5 => '5',
        6 => '6',
        7 => '7',
        8 => '8',
        _ => '9',
    }
}

/// `n` in decimal.
pub fn decimal(n: u64) -> (out: String)
    ensures
        out@ == decimal_of(n as nat),
    decreases n,
{
    if n < 10 {
        let mut out = String::new();
        out.push(digit_char(n));
        assert(out@ =~= decimal_of(n as nat));
        out
    } else {
        let mut out = decimal(n / 10);
        out.push(digit_char(n % 10));
        out
    }
}

/// `n` in decimal, with a minus sign where it is negative.
pub open spec fn signed_decimal_of(n: int) -> Seq<char> {
    if n < 0 {
        seq!['-'] + decimal_of((-n) as nat)
    } else {
        decimal_of(n as nat)
    }
}

/// `n` in decimal, with a minus sign where it is negative.
pub fn signed_decimal(n: i32) -> (out: String)
    ensures
        out@ == signed_decimal_of(n as int),
{
    if n < 0 {
        let mut out = String::new();
        out.push('-');
        out.append(decimal((-(n as i64)) as u64).as_str());
        assert(out@ =~= signed_decimal_of(n as int));
        out
    } else {
        decimal(n as u64)
    }
}

/// Why a text is not a number.
#[derive(Debug, Clone, Copy, PartialEq, Eq, Structural)]
pub enum NumberError {
    Empty,
    InvalidDigit,
    TooLarge,
}

/// The value of a decimal digit.
pub open spec fn digit_value(c: char) -> Option<nat> {
    if '0' <= c <= '9' {
        Some((c as int - '0' as int) as nat)
    } else {
        None
    }
}

/// `acc` followed by the digits of `s`, as far as they can be read.
pub open spec fn number_from(s: Seq<char>, acc: nat) -> Result<u64, NumberError>
    decreases s.len(),
{
    if s.len() == 0 {
        Ok(acc as u64)
    } else {
        match digit_value(s[0]) {
            None => Err(NumberError::InvalidDigit),
            Some(d) => if acc * 10 + d > u64::MAX {
                Err(NumberError::TooLarge)
            } else {
                number_from(s.drop_first(), acc * 10 + d)
            },
        }
    }
}

/// The number `s` spells in decimal; a plus sign may stand before it.
pub open spec fn number_of(s: Seq<char>) -> Result<u64, NumberError> {
    if s.len() == 0 {
        Err(NumberError::Empty)
    } else if s.len() > 1 && s[0] == '+' {
        number_from(s.drop_first(), 0)
    } else {
        number_from(s, 0)
    }
}

/// Reads a decimal number.
pub fn parse_number(text: &str) -> (number: Result<u64, NumberError>)
    ensures
        number == number_of(text@),
{
    let chars = to_chars(text);
    if chars.len() == 0 {
        return Err(NumberError::Empty);
    }
    let mut i: usize = if chars.len() > 1 && chars[0] == '+' {
        1
    } else {
        0
    };
    assert(chars@.skip(0) =~= chars@);
    assert(chars@.skip(1) =~= chars@.drop_first());
    let mut acc: u64 = 0;
    while i < chars.len()
        invariant
            chars@ == text@,
            i <= chars@.len(),
            number_of(text@) == number_from(chars@.skip(i as int), acc as nat),
        decreases chars.len() - i,
    {
        let c: char = chars[i];
        assert(chars@.skip(i as int)[0] == c);
        assert(chars@.skip(i as int).drop_first() =~= chars@.skip(i + 1));
        if c < '0' || c > '9' {
            return Err(NumberError::InvalidDigit);
        }
        let d: u64 = (c as u32 - '0' as u32) as u64;
        if acc > (u64::MAX - d) / 10 {
            return Err(NumberError::TooLarge);
        }
        acc = acc * 10 + d;
        i = i + 1;
    }
    assert(chars@.skip(i as int) =~= Seq::<char>::empty());
    Ok(acc)
}

proof fn lemma_number_push(s: Seq<char>, acc: nat, c: char)
    requires
        number_from(s, acc) is Ok,
        acc <= u64::MAX,
        digit_value(c) is Some,
        number_from(s, acc)->Ok_0 * 10 + digit_value(c)->0 <= u64::MAX,
    ensures
        number_from(s.push(c), acc) == Ok::<u64, NumberError>(
            (number_from(s, acc)->Ok_0 * 10 + digit_value(c)->0) as u64,
        ),
    decreases s.len(),
{
    let longer = s.push(c);
    if s.len() == 0 {
        assert(longer.drop_first() =~= Seq::<char>::empty());
        assert(longer[0] == c);
        reveal_with_fuel(number_from, 2);
    } else {
        assert(longer[0] == s[0]);
        assert(longer.drop_first() =~= s.drop_first().push(c));
        lemma_number_push(s.drop_first(), acc * 10 + digit_value(s[0])->0, c);
    }
}

/// A number is read back from its own decimal form.
pub proof fn lemma_decimal_reads_back(n: u64)
    ensures
        number_of(decimal_of(n as nat)) == Ok::<u64, NumberError>(n),
        number_from(decimal_of(n as nat), 0) == Ok::<u64, NumberError>(n),
        decimal_of(n as nat).len() > 0,
        forall|i: int|
            0 <= i < decimal_of(n as nat).len() ==> digit_value(
                #[trigger] decimal_of(n as nat)[i],
            ) is Some,
    decreases n,
{
    let s = decimal_of(n as nat);
    if n < 10 {
        assert(s[0] == digit(n as int));
        assert(digit_value(digit(n as int)) == Some(n as nat));
        assert(s.drop_first() =~= Seq::<char>::empty());
        reveal_with_fuel(number_from, 2);
    } else {
        let m = n / 10;
        lemma_decimal_reads_back(m);
        let c = digit((n % 10) as int);
        assert(digit_value(c) == Some((n % 10) as nat));
        lemma_number_push(decimal_of(m as nat), 0, c);
        assert(s == decimal_of(m as nat).push(c));
    }
    assert(digit_value(s[0]) is Some);
}

// ---------------------------------------------------------------------------
// Whitespace, words and case
// ---------------------------------------------------------------------------

/// The characters of Unicode's `White_Space` property.
pub open spec fn is_white(c: char) -> bool {
    ||| '\u{9}' <= c <= '\u{d}'
    ||| c == ' '
    ||| c == '\u{85}'
    ||| c == '\u{a0}'
    ||| c == '\u{1680}'
    ||| '\u{2000}' <= c <= '\u{200a}'
    ||| c == '\u{2028}'
    ||| c == '\u{2029}'
    ||| c == '\u{202f}'
    ||| c == '\u{205f}'
    ||| c == '\u{3000}'
}

/// Whether `c` is white space.
pub fn is_white_space(c: char) -> (yes: bool)
    ensures
        yes == is_white(c),
{
    ('\u{9}' <= c && c <= '\u{d}') || c == ' ' || c == '\u{85}' || c == '\u{a0}' || c == '\u{1680}'
        || ('\u{2000}' <= c && c <= '\u{200a}') || c == '\u{2028}' || c == '\u{2029}' || c
        == '\u{202f}' || c == '\u{205f}' || c == '\u{3000}'
}

/// The control characters: Unicode's category `Cc`.
pub open spec fn is_control_char(c: char) -> bool {
    c <= '\u{1f}' || '\u{7f}' <= c <= '\u{9f}'
}

/// Whether `c` is a control character.
pub fn is_control(c: char) -> (yes: bool)
    ensures
        yes == is_control_char(c),
{
    c <= '\u{1f}' || ('\u{7f}' <= c && c <= '\u{9f}')
}

/// `s` without the white space it starts with.
pub open spec fn trim_start_of(s: Seq<char>) -> Seq<char>
    decreases s.len(),
{
    if s.len() > 0 && is_white(s[0]) {
        trim_start_of(s.drop_first())
    } else {
        s
    }
}

/// `s` without the white space it ends with.
pub open spec fn trim_end_of(s: Seq<char>) -> Seq<char>
    decreases s.len(),
{
    if s.len() > 0 && is_white(s.last()) {
        trim_end_of(s.drop_last())
    } else {
        s
    }
}

/// `s` without the white space around it.
pub open spec fn trim_of(s: Seq<char>) -> Seq<char> {
    trim_end_of(trim_start_of(s))
}

/// `text` without the white space around it.
pub fn trim(text: &str) -> (out: String)
    ensures
        out@ == trim_of(text@),
{
    let chars = to_chars(text);
    let mut from: usize = 0;
    assert(chars@.skip(0) =~= chars@);
    while from < chars.len() && is_white_space(chars[from])
        invariant
            from <= chars@.len(),
            trim_start_of(chars@) == trim_start_of(chars@.skip(from as int)),
        decreases chars.len() - from,
    {
        assert(chars@.skip(from as int).drop_first() =~= chars@.skip(from + 1));
        from = from + 1;
    }
    let ghost head = chars@.skip(from as int);
    assert(trim_start_of(chars@) == head);
    let mut to: usize = chars.len();
    assert(chars@.subrange(from as int, to as int) =~= head);
    while to > from && is_white_space(chars[to - 1])
        invariant
            from <= to <= chars@.len(),
            trim_end_of(head) == trim_end_of(chars@.subrange(from as int, to as int)),
        decreases to - from,
    {
        assert(chars@.subrange(from as int, to as int).drop_last() =~= chars@.subrange(
            from as int,
            to - 1,
        ));
        to = to - 1;
    }
    from_chars(&chars, from, to)
}

/// How many characters other than white space `s` starts with.
pub open spec fn word_len(s: Seq<char>) -> nat
    decreases s.len(),
{
    if s.len() > 0 && !is_white(s[0]) {
        1 + word_len(s.drop_first())
    } else {
        0
    }
}

pub proof fn lemma_word_len(s: Seq<char>)
    ensures
        word_len(s) <= s.len(),
        forall|i: int| 0 <= i < word_len(s) ==> !is_white(#[trigger] s[i]),
        word_len(s) < s.len() ==> is_white(s[word_len(s) as int]),
    decreases s.len(),
{
    if s.len() > 0 && !is_white(s[0]) {
        lemma_word_len(s.drop_first());
        assert forall|i: int| 0 <= i < word_len(s) implies !is_white(#[trigger] s[i]) by {
            if i > 0 {
                assert(s.drop_first()[i - 1] == s[i]);
            }
        }
    }
}

proof fn lemma_trim_start_shorter(s: Seq<char>)
    ensures
        trim_start_of(s).len() <= s.len(),
        trim_start_of(s).len() > 0 ==> !is_white(trim_start_of(s)[0]),
    decreases s.len(),
{
    if s.len() > 0 && is_white(s[0]) {
        lemma_trim_start_shorter(s.drop_first());
    }
}

/// The words of `s`: its longest runs of characters other than white space.
pub open spec fn words_of(s: Seq<char>) -> Seq<Seq<char>>
    decreases s.len(),
    via words_of_decreases
{
    let rest = trim_start_of(s);
    if rest.len() == 0 {
        Seq::empty()
    } else {
        let n = word_len(rest);
        seq![rest.take(n as int)] + words_of(rest.skip(n as int))
    }
}

#[via_fn]
proof fn words_of_decreases(s: Seq<char>) {
    lemma_trim_start_shorter(s);
    lemma_word_len(trim_start_of(s));
    let rest = trim_start_of(s);
    if rest.len() > 0 {
        assert(word_len(rest) >= 1);
    }
}

/// No word holds white space, and none is empty.
pub proof fn lemma_words(s: Seq<char>)
    ensures
        forall|k: int, i: int|
            0 <= k < words_of(s).len() && 0 <= i < words_of(s)[k].len() ==> !is_white(
                #[trigger] words_of(s)[k][i],
            ),
        forall|k: int| 0 <= k < words_of(s).len() ==> (#[trigger] words_of(s)[k]).len() > 0,
    decreases s.len(),
{
    lemma_trim_start_shorter(s);
    let rest = trim_start_of(s);
    lemma_word_len(rest);
    if rest.len() > 0 {
        let n = word_len(rest);
        assert(n >= 1);
        let tail = words_of(rest.skip(n as int));
        lemma_words(rest.skip(n as int));
        assert forall|k: int| 0 <= k < words_of(s).len() implies (#[trigger] words_of(
            s,
        )[k]).len() > 0 by {
            if k > 0 {
                assert(words_of(s)[k] == tail[k - 1]);
            }
        }
        assert forall|k: int, i: int|
            0 <= k < words_of(s).len() && 0 <= i < words_of(s)[k].len() implies !is_white(
            #[trigger] words_of(s)[k][i],
        ) by {
            if k > 0 {
                assert(words_of(s)[k] == tail[k - 1]);
                assert(!is_white(tail[k - 1][i]));
            }
        }
    }
}

/// The views of a list of strings.
pub open spec fn views(v: Seq<String>) -> Seq<Seq<char>> {
    v.map_values(|s: String| s@)
}

/// The words of `text`.
pub fn words(text: &str) -> (out: Vec<String>)
    ensures
        views(out@) == words_of(text@),
{
    let chars = to_chars(text);
    let mut out: Vec<String> = Vec::new();
    let mut i: usize = 0;
    assert(chars@.skip(0) =~= chars@);
    assert(views(out@) + words_of(chars@.skip(0)) =~= words_of(chars@));
    while i < chars.len()
        invariant
            i <= chars@.len(),
            views(out@) + words_of(chars@.skip(i as int)) == words_of(chars@),
        decreases chars.len() - i,
    {
        let ghost left = chars@.skip(i as int);
        let ghost whole = words_of(chars@);
        if is_white_space(chars[i]) {
            assert(left.drop_first() =~= chars@.skip(i + 1));
            assert(trim_start_of(left) == trim_start_of(left.drop_first()));
            assert(words_of(left) == words_of(left.drop_first()));
            i = i + 1;
        } else {
            let from: usize = i;
            assert(trim_start_of(left) == left);
            while i < chars.len() && !is_white_space(chars[i])
                invariant
                    from <= i <= chars@.len(),
                    left == chars@.skip(from as int),
                    word_len(left) == (i - from) + word_len(chars@.skip(i as int)),
                decreases chars.len() - i,
            {
                assert(chars@.skip(i as int).drop_first() =~= chars@.skip(i + 1));
                i = i + 1;
            }
            assert(word_len(left) == i - from);
            let word = from_chars(&chars, from, i);
            assert(word@ =~= left.take(i - from));
            assert(left.skip(i - from) =~= chars@.skip(i as int));
            let ghost before = views(out@);
            out.push(word);
            assert(views(out@) =~= before.push(word@));
            assert(before + (seq![word@] + words_of(chars@.skip(i as int))) =~= before.push(word@)
                + words_of(chars@.skip(i as int)));
            assert(i > from);
        }
    }
    assert(words_of(chars@.skip(i as int)) =~= Seq::<Seq<char>>::empty());
    assert(views(out@) =~= words_of(chars@));
    out
}

/// `c` in lower case, if it is an ASCII letter.
pub open spec fn ascii_lower(c: char) -> char {
    if 'A' <= c <= 'Z' {
        (c as u8 + 32) as char
    } else {
        c
    }
}

/// Equality that ignores the case of ASCII letters.
pub open spec fn same_ignoring_case(a: Seq<char>, b: Seq<char>) -> bool {
    a.len() == b.len() && forall|i: int|
        0 <= i < a.len() ==> ascii_lower(#[trigger] a[i]) == ascii_lower(b[i])
}

fn lower(c: char) -> (out: char)
    ensures
        out == ascii_lower(c),
{
    if 'A' <= c && c <= 'Z' {
        (c as u8 + 32) as char
    } else {
        c
    }
}

/// Whether two strings are equal but for the case of their ASCII letters.
pub fn eq_ignore_ascii_case(a: &str, b: &str) -> (same: bool)
    ensures
        same == same_ignoring_case(a@, b@),
{
    let left = to_chars(a);
    let right = to_chars(b);
    if left.len() != right.len() {
        return false;
    }
    let mut i: usize = 0;
    while i < left.len()
        invariant
            left@ == a@,
            right@ == b@,
            i <= left@.len() == right@.len(),
            forall|k: int| 0 <= k < i ==> ascii_lower(#[trigger] left@[k]) == ascii_lower(right@[k]),
        decreases left.len() - i,
    {
        if lower(left[i]) != lower(right[i]) {
            assert(ascii_lower(left@[i as int]) != ascii_lower(right@[i as int]));
            return false;
        }
        i = i + 1;
    }
    true
}

/// `parts` with `separator` between each two of them.
pub open spec fn joined(parts: Seq<Seq<char>>, separator: Seq<char>) -> Seq<char>
    decreases parts.len(),
{
    if parts.len() == 0 {
        Seq::empty()
    } else if parts.len() == 1 {
        parts[0]
    } else {
        joined(parts.drop_last(), separator) + separator + parts.last()
    }
}

/// `parts` with `separator` between each two of them.
pub fn join(parts: &Vec<String>, separator: &str) -> (out: String)
    ensures
        out@ == joined(views(parts@), separator@),
{
    let mut out = String::new();
    let mut i: usize = 0;
    assert(views(parts@).take(0) =~= Seq::<Seq<char>>::empty());
    while i < parts.len()
        invariant
            i <= parts@.len(),
            out@ == joined(views(parts@).take(i as int), separator@),
        decreases parts.len() - i,
    {
        let ghost now = views(parts@).take(i + 1);
        assert(now.drop_last() =~= views(parts@).take(i as int));
        assert(now.last() == parts@[i as int]@);
        if i > 0 {
            out.append(separator);
        }
        out.append(parts[i].as_str());
        if i == 0 {
            assert(out@ =~= parts@[0]@);
            assert(now[0] == parts@[0]@);
        }
        i = i + 1;
    }
    assert(views(parts@).take(parts@.len() as int) =~= views(parts@));
    out
}

// ---------------------------------------------------------------------------
// Searching and editing
// ---------------------------------------------------------------------------

/// How many characters stand before the first `c`: all of them if there is none.
pub open spec fn upto(s: Seq<char>, c: char) -> nat
    decreases s.len(),
{
    if s.len() == 0 || s[0] == c {
        0
    } else {
        1 + upto(s.drop_first(), c)
    }
}

pub proof fn lemma_upto(s: Seq<char>, c: char)
    ensures
        upto(s, c) <= s.len(),
        upto(s, c) < s.len() ==> s[upto(s, c) as int] == c,
        forall|i: int| 0 <= i < upto(s, c) ==> s[i] != c,
    decreases s.len(),
{
    if s.len() > 0 && s[0] != c {
        lemma_upto(s.drop_first(), c);
        assert forall|i: int| 0 <= i < upto(s, c) implies s[i] != c by {
            if i > 0 {
                assert(s[i] == s.drop_first()[i - 1]);
            }
        }
    }
}

/// The first `c` of a text ends a part that holds none.
pub proof fn lemma_upto_prefix(head: Seq<char>, c: char, tail: Seq<char>)
    requires
        forall|i: int| 0 <= i < head.len() ==> head[i] != c,
    ensures
        upto(head + seq![c] + tail, c) == head.len(),
        upto(head, c) == head.len(),
{
    lemma_upto(head + seq![c] + tail, c);
    lemma_upto(head, c);
    let whole = head + seq![c] + tail;
    assert(whole[head.len() as int] == c);
    let n = upto(whole, c);
    if n < head.len() {
        assert(whole[n as int] == head[n as int]);
    }
}

/// Where the first `c` at or after `from` stands, or the end.
pub fn find_char(chars: &Vec<char>, from: usize, c: char) -> (at: usize)
    requires
        from <= chars@.len(),
    ensures
        from <= at <= chars@.len(),
        at - from == upto(chars@.skip(from as int), c),
        at < chars@.len() ==> chars@[at as int] == c,
{
    let mut at: usize = from;
    while at < chars.len() && chars[at] != c
        invariant
            from <= at <= chars@.len(),
            (at - from) + upto(chars@.skip(at as int), c) == upto(chars@.skip(from as int), c),
        decreases chars.len() - at,
    {
        assert(chars@.skip(at as int).drop_first() =~= chars@.skip(at + 1));
        at = at + 1;
    }
    at
}

/// The part of `s` before the first `c`.
pub open spec fn head_of(s: Seq<char>, c: char) -> Seq<char> {
    s.take(upto(s, c) as int)
}

/// The part of `s` after the first `c`, if there is one.
pub open spec fn tail_of(s: Seq<char>, c: char) -> Option<Seq<char>> {
    if upto(s, c) < s.len() {
        Some(s.skip(upto(s, c) as int + 1))
    } else {
        None
    }
}

/// What stands between the occurrences of `c` in `s`: at least one part.
pub open spec fn parts_of(s: Seq<char>, c: char) -> Seq<Seq<char>>
    decreases s.len(),
    via parts_of_decreases
{
    match tail_of(s, c) {
        None => seq![s],
        Some(rest) => seq![head_of(s, c)] + parts_of(rest, c),
    }
}

#[via_fn]
proof fn parts_of_decreases(s: Seq<char>, c: char) {
    lemma_upto(s, c);
}

/// `text` cut at every `c`.
pub fn split(text: &str, c: char) -> (parts: Vec<String>)
    ensures
        views(parts@) == parts_of(text@, c),
{
    let chars = to_chars(text);
    let mut parts: Vec<String> = Vec::new();
    let mut from: usize = 0;
    let mut at: usize = find_char(&chars, 0, c);
    assert(chars@.skip(0) =~= chars@);
    assert(views(parts@) + parts_of(chars@.skip(0), c) =~= parts_of(chars@, c));
    while at < chars.len()
        invariant
            from <= at <= chars@.len(),
            at - from == upto(chars@.skip(from as int), c),
            views(parts@) + parts_of(chars@.skip(from as int), c) == parts_of(chars@, c),
        decreases chars.len() - from,
    {
        let ghost left = chars@.skip(from as int);
        let ghost before = views(parts@);
        let part = from_chars(&chars, from, at);
        assert(part@ =~= head_of(left, c));
        assert(left.skip(upto(left, c) as int + 1) =~= chars@.skip(at + 1));
        parts.push(part);
        assert(views(parts@) =~= before.push(part@));
        from = at + 1;
        at = find_char(&chars, from, c);
        assert(before + (seq![part@] + parts_of(chars@.skip(from as int), c)) =~= before.push(part@)
            + parts_of(chars@.skip(from as int), c));
    }
    let ghost before = views(parts@);
    let part = from_chars(&chars, from, chars.len());
    assert(part@ =~= chars@.skip(from as int));
    parts.push(part);
    assert(views(parts@) =~= before + seq![part@]);
    parts
}

/// Whether `part` stands at `i` in `s`.
pub open spec fn stands_at(s: Seq<char>, part: Seq<char>, i: int) -> bool {
    0 <= i && i + part.len() <= s.len() && s.subrange(i, i + part.len()) == part
}

/// Whether `part` occurs anywhere in `s`.
pub open spec fn holds_text(s: Seq<char>, part: Seq<char>) -> bool {
    exists|i: int| stands_at(s, part, i)
}

fn is_at(chars: &Vec<char>, part: &Vec<char>, i: usize) -> (yes: bool)
    requires
        i + part@.len() <= chars@.len(),
    ensures
        yes == stands_at(chars@, part@, i as int),
{
    let mut k: usize = 0;
    while k < part.len()
        invariant
            i + part@.len() <= chars.len(),
            k <= part@.len(),
            forall|j: int| 0 <= j < k ==> chars@[i + j] == part@[j],
        decreases part.len() - k,
    {
        if chars[i + k] != part[k] {
            assert(chars@.subrange(i as int, i + part@.len())[k as int] != part@[k as int]);
            return false;
        }
        k = k + 1;
    }
    assert(chars@.subrange(i as int, i + part@.len()) =~= part@);
    true
}

/// Whether `part` occurs anywhere in `text`.
pub fn contains_text(text: &str, part: &str) -> (yes: bool)
    ensures
        yes == holds_text(text@, part@),
{
    let chars = to_chars(text);
    let wanted = to_chars(part);
    if wanted.len() > chars.len() {
        return false;
    }
    let last: usize = chars.len() - wanted.len();
    let mut i: usize = 0;
    while i <= last
        invariant
            chars@ == text@,
            wanted@ == part@,
            last == chars@.len() - wanted@.len(),
            i <= last + 1,
            chars@.len() <= usize::MAX,
            forall|j: int| 0 <= j < i ==> !stands_at(text@, part@, j),
        decreases last + 1 - i,
    {
        if is_at(&chars, &wanted, i) {
            return true;
        }
        if i == last {
            assert forall|j: int| !stands_at(text@, part@, j) by {
            }
            return false;
        }
        i = i + 1;
    }
    false
}

/// Whether `s` starts with `prefix`.
pub open spec fn has_prefix(s: Seq<char>, prefix: Seq<char>) -> bool {
    stands_at(s, prefix, 0)
}

/// Whether `text` starts with `prefix`.
pub fn starts_with(text: &str, prefix: &str) -> (yes: bool)
    ensures
        yes == has_prefix(text@, prefix@),
{
    let chars = to_chars(text);
    let wanted = to_chars(prefix);
    if wanted.len() > chars.len() {
        return false;
    }
    is_at(&chars, &wanted, 0)
}

/// `text` with `c` put in before the character at `at`.
pub fn insert_char(text: &str, at: usize, c: char) -> (out: String)
    requires
        at <= text@.len(),
    ensures
        out@ == text@.insert(at as int, c),
{
    let mut chars = to_chars(text);
    chars.insert(at, c);
    let out = from_chars(&chars, 0, chars.len());
    assert(out@ =~= text@.insert(at as int, c));
    out
}

/// `text` without the character at `at`.
pub fn remove_char(text: &str, at: usize) -> (out: String)
    requires
        at < text@.len(),
    ensures
        out@ == text@.remove(at as int),
{
    let mut chars = to_chars(text);
    chars.remove(at);
    let out = from_chars(&chars, 0, chars.len());
    assert(out@ =~= text@.remove(at as int));
    out
}

/// `name` filled up with spaces to a column of `width`.
pub open spec fn padded(name: Seq<char>, width: nat) -> Seq<char> {
    if name.len() >= width {
        name
    } else {
        name + repeated(' ', (width - name.len()) as nat)
    }
}

/// `name` filled up with spaces to a column of `width`.
pub fn pad_end(name: &str, width: usize) -> (out: String)
    ensures
        out@ == padded(name@, width as nat),
{
    let n: usize = name.unicode_len();
    if n >= width {
        name.to_owned()
    } else {
        concat(name, repeat_char(' ', width - n).as_str())
    }
}

/// `text` pushed to the right of a column of `width` characters.
pub open spec fn padded_front(text: Seq<char>, width: nat) -> Seq<char> {
    if text.len() >= width {
        text
    } else {
        repeated(' ', (width - text.len()) as nat) + text
    }
}

/// `text` pushed to the right of a column of `width` characters.
pub fn pad_front(text: &str, width: usize) -> (out: String)
    ensures
        out@ == padded_front(text@, width as nat),
{
    let n: usize = text.unicode_len();
    if n >= width {
        text.to_owned()
    } else {
        concat(repeat_char(' ', width - n).as_str(), text)
    }
}

// ---------------------------------------------------------------------------
// Width on screen
// ---------------------------------------------------------------------------

/// The cells `ratatui::text::Span::raw(text).width()` reports for `text`.
pub uninterp spec fn cell_width(text: Seq<char>) -> usize;

/// A character that takes one cell wherever it stands: printable ASCII, or the
/// ellipsis a cut is marked with.
pub open spec fn is_plain_char(c: char) -> bool {
    ' ' <= c <= '~' || c == '\u{2026}'
}

/// Text made of characters of one cell each.
pub open spec fn is_plain(text: Seq<char>) -> bool {
    forall|i: int| 0 <= i < text.len() ==> is_plain_char(#[trigger] text[i])
}

/// The width of `text` on screen.
///
/// Calls `ratatui::text::Span::width`, which sums the widths the
/// `unicode-width` tables give, ligatures and emoji sequences included. Claimed
/// of it: the result depends on the characters alone, and text of printable
/// ASCII and ellipses takes one cell for each character.
#[verifier::external_body]
pub(crate) fn text_width(text: &str) -> (width: usize)
    ensures
        width == cell_width(text@),
        is_plain(text@) ==> width == text@.len(),
{
    Span::raw(text).width()
}

// ---------------------------------------------------------------------------
// Laws
// ---------------------------------------------------------------------------

/// A digit is the character of its value.
pub proof fn law_a_digit_stands_for_its_value(d: int)
    requires
        0 <= d < 10,
    ensures
        digit(d) as int == '0' as int + d,
        digit_value(digit(d)) == Some(d as nat),
{
}

/// A number is written with its last digit last, and a number below ten with
/// that digit alone.
pub proof fn law_a_number_is_written_digit_by_digit(n: nat)
    ensures
        n < 10 ==> decimal_of(n) == seq![digit(n as int)],
        n >= 10 ==> decimal_of(n).last() as int == '0' as int + n % 10,
        n >= 10 ==> decimal_of(n).drop_last() == decimal_of(n / 10),
        signed_decimal_of(n as int) == decimal_of(n),
        n > 0 ==> signed_decimal_of(-(n as int)) == seq!['-'] + decimal_of(n),
{
    if n >= 10 {
        assert(decimal_of(n).drop_last() =~= decimal_of(n / 10));
    }
}

/// A text is read as a number exactly where it is made of digits, after a plus
/// sign perhaps; anything else is told apart from a text without a character.
pub proof fn law_only_digits_are_a_number(s: Seq<char>)
    ensures
        number_of(s) == Err::<u64, NumberError>(NumberError::Empty) <==> s.len() == 0,
        number_of(s) is Ok ==> s.len() > 0 && ('0' <= s[0] <= '9' || s[0] == '+') && forall|i: int|
            0 < i < s.len() ==> '0' <= #[trigger] s[i] <= '9',
{
    if s.len() > 1 && s[0] == '+' {
        lemma_number_from(s.drop_first(), 0);
        assert forall|i: int| number_of(s) is Ok && 0 < i < s.len() implies '0' <= #[trigger] s[i]
            <= '9' by {
            assert(s.drop_first()[i - 1] == s[i]);
        }
    } else if s.len() > 0 {
        lemma_number_from(s, 0);
    }
}

proof fn lemma_number_from(s: Seq<char>, acc: nat)
    ensures
        number_from(s, acc) != Err::<u64, NumberError>(NumberError::Empty),
        number_from(s, acc) is Ok ==> forall|i: int|
            0 <= i < s.len() ==> '0' <= #[trigger] s[i] <= '9',
    decreases s.len(),
{
    if s.len() > 0 && digit_value(s[0]) is Some {
        let d = digit_value(s[0])->0;
        if acc * 10 + d <= u64::MAX {
            lemma_number_from(s.drop_first(), acc * 10 + d);
            assert forall|i: int| number_from(s, acc) is Ok && 0 <= i < s.len() implies '0'
                <= #[trigger] s[i] <= '9' by {
                if i > 0 {
                    assert(s.drop_first()[i - 1] == s[i]);
                }
            }
        }
    }
}

/// What is trimmed off a text is white space at its ends, and all of it.
pub proof fn law_trimming_takes_the_blanks_off_the_ends(s: Seq<char>)
    ensures
        ({
            let t = trim_of(s);
            &&& t.len() > 0 ==> !is_white(t.first()) && !is_white(t.last())
            &&& exists|from: int|
                0 <= from && from + t.len() <= s.len() && #[trigger] s.subrange(
                    from,
                    from + t.len(),
                ) == t && (forall|i: int| 0 <= i < from ==> is_white(#[trigger] s[i])) && forall|
                    i: int,
                | from + t.len() <= i < s.len() ==> is_white(#[trigger] s[i])
        }),
{
    lemma_trim_start(s);
    let u = trim_start_of(s);
    lemma_trim_end(u);
    let t = trim_of(s);
    let from = s.len() - u.len();
    assert(s.subrange(from, from + t.len()) =~= t) by {
        assert forall|i: int| 0 <= i < t.len() implies s[from + i] == t[i] by {
            assert(t[i] == u[i]);
        }
    }
    assert forall|i: int| from + t.len() <= i < s.len() implies is_white(#[trigger] s[i]) by {
        assert(u[i - from] == s[i]);
    }
}

proof fn lemma_trim_start(s: Seq<char>)
    ensures
        ({
            let t = trim_start_of(s);
            &&& t.len() <= s.len()
            &&& t == s.skip(s.len() - t.len())
            &&& t.len() > 0 ==> !is_white(t[0])
            &&& forall|i: int| 0 <= i < s.len() - t.len() ==> is_white(#[trigger] s[i])
        }),
    decreases s.len(),
{
    let t = trim_start_of(s);
    if s.len() > 0 && is_white(s[0]) {
        let rest = s.drop_first();
        lemma_trim_start(rest);
        assert(t =~= s.skip(s.len() - t.len()));
        assert forall|i: int| 0 <= i < s.len() - t.len() implies is_white(#[trigger] s[i]) by {
            if i > 0 {
                assert(rest[i - 1] == s[i]);
            }
        }
    } else {
        assert(t =~= s.skip(0));
    }
}

proof fn lemma_trim_end(s: Seq<char>)
    ensures
        ({
            let t = trim_end_of(s);
            &&& t.len() <= s.len()
            &&& t == s.take(t.len() as int)
            &&& t.len() > 0 ==> !is_white(t.last())
            &&& forall|i: int| t.len() <= i < s.len() ==> is_white(#[trigger] s[i])
        }),
    decreases s.len(),
{
    let t = trim_end_of(s);
    if s.len() > 0 && is_white(s.last()) {
        let rest = s.drop_last();
        lemma_trim_end(rest);
        assert(t =~= s.take(t.len() as int));
        assert forall|i: int| t.len() <= i < s.len() implies is_white(#[trigger] s[i]) by {
            if i < rest.len() {
                assert(rest[i] == s[i]);
            }
        }
    } else {
        assert(t =~= s.take(s.len() as int));
    }
}

/// White space between words only parts them: a text that starts with some has
/// the words of what follows it.
pub proof fn law_blanks_only_part_words(c: char, rest: Seq<char>)
    requires
        is_white(c),
    ensures
        words_of(seq![c] + rest) == words_of(rest),
        words_of(Seq::<char>::empty()) == Seq::<Seq<char>>::empty(),
{
    let s = seq![c] + rest;
    assert(s.drop_first() =~= rest);
    assert(trim_start_of(s) == trim_start_of(rest));
}

/// A word goes on up to the next white space, and the rest of the text has the
/// other words.
pub proof fn law_a_word_goes_up_to_the_next_blank(word: Seq<char>, rest: Seq<char>)
    requires
        word.len() > 0,
        forall|i: int| 0 <= i < word.len() ==> !is_white(#[trigger] word[i]),
        rest.len() > 0 ==> is_white(rest[0]),
    ensures
        words_of(word + rest) == seq![word] + words_of(rest),
{
    let s = word + rest;
    assert(s[0] == word[0]);
    assert(trim_start_of(s) == s);
    lemma_word_len(s);
    let n = word_len(s);
    if n < word.len() {
        assert(s[n as int] == word[n as int]);
    } else if n > word.len() {
        assert(s[word.len() as int] == rest[0]);
    }
    assert(s.take(n as int) =~= word);
    assert(s.skip(n as int) =~= rest);
}

/// A text is what its parts are, with the separator between each two of them, and
/// no part holds it.
pub proof fn law_parts_join_up_again(s: Seq<char>, c: char)
    ensures
        parts_of(s, c).len() > 0,
        joined(parts_of(s, c), seq![c]) == s,
        forall|k: int| 0 <= k < parts_of(s, c).len() ==> !(#[trigger] parts_of(s, c)[k]).contains(c),
    decreases s.len(),
{
    lemma_upto(s, c);
    match tail_of(s, c) {
        None => {},
        Some(rest) => {
            law_parts_join_up_again(rest, c);
            let head = head_of(s, c);
            let parts = parts_of(rest, c);
            lemma_joined_from_the_front(head, parts, seq![c]);
            assert(s =~= head + seq![c] + rest);
            assert forall|k: int| 0 <= k < parts_of(s, c).len() implies !(#[trigger] parts_of(
                s,
                c,
            )[k]).contains(c) by {
                if k > 0 {
                    assert(parts_of(s, c)[k] == parts[k - 1]);
                }
            }
        },
    }
}

proof fn lemma_joined_from_the_front(
    first: Seq<char>,
    parts: Seq<Seq<char>>,
    separator: Seq<char>,
)
    requires
        parts.len() > 0,
    ensures
        joined(seq![first] + parts, separator) == first + separator + joined(parts, separator),
    decreases parts.len(),
{
    let all = seq![first] + parts;
    if parts.len() == 1 {
        assert(all.drop_last() =~= seq![first]);
        assert(joined(all.drop_last(), separator) == first);
        assert(all.last() == parts[0]);
    } else {
        lemma_joined_from_the_front(first, parts.drop_last(), separator);
        assert(all.drop_last() =~= seq![first] + parts.drop_last());
        assert(all.last() == parts.last());
        assert(joined(all, separator) =~= first + separator + joined(parts, separator));
    }
}

/// Joined parts stand in order, with the separator between each two of them and
/// nowhere else.
pub proof fn law_a_separator_stands_between(
    parts: Seq<Seq<char>>,
    last: Seq<char>,
    separator: Seq<char>,
)
    ensures
        joined(Seq::<Seq<char>>::empty(), separator) == Seq::<char>::empty(),
        joined(seq![last], separator) == last,
        parts.len() > 0 ==> joined(parts.push(last), separator) == joined(parts, separator)
            + separator + last,
{
    assert(parts.push(last).drop_last() =~= parts);
}

/// Two texts are the same but for case where they differ in nothing but the case
/// of ASCII letters.
pub proof fn law_case_is_ignored_of_ascii_letters_alone(a: Seq<char>, b: Seq<char>)
    ensures
        a == b ==> same_ignoring_case(a, b),
        same_ignoring_case(a, b) ==> a.len() == b.len() && forall|i: int|
            0 <= i < a.len() ==> #[trigger] a[i] == b[i] || (('A' <= a[i] <= 'Z' || 'a' <= a[i]
                <= 'z') && ('A' <= b[i] <= 'Z' || 'a' <= b[i] <= 'z') && (a[i] as int - b[i] as int
                == 32 || b[i] as int - a[i] as int == 32)),
{
    if same_ignoring_case(a, b) {
        assert forall|i: int| 0 <= i < a.len() implies #[trigger] a[i] == b[i] || (('A' <= a[i]
            <= 'Z' || 'a' <= a[i] <= 'z') && ('A' <= b[i] <= 'Z' || 'a' <= b[i] <= 'z') && (
        a[i] as int - b[i] as int == 32 || b[i] as int - a[i] as int == 32)) by {
            assert(ascii_lower(a[i]) == ascii_lower(b[i]));
            lemma_ascii_lower(a[i]);
            lemma_ascii_lower(b[i]);
        }
    }
}

proof fn lemma_ascii_lower(c: char)
    ensures
        'A' <= c <= 'Z' ==> ascii_lower(c) as int == c as int + 32,
        !('A' <= c <= 'Z') ==> ascii_lower(c) == c,
{
}

/// A column is filled up with blanks to its width, on the right or on the left,
/// and nothing is cut that is wider.
pub proof fn law_a_column_is_filled_with_blanks(text: Seq<char>, width: nat)
    ensures
        text.len() >= width ==> padded(text, width) == text && padded_front(text, width) == text,
        text.len() < width ==> {
            &&& padded(text, width).len() == width
            &&& padded_front(text, width).len() == width
            &&& padded(text, width).take(text.len() as int) == text
            &&& padded_front(text, width).skip(width - text.len()) == text
            &&& forall|i: int| text.len() <= i < width ==> #[trigger] padded(text, width)[i] == ' '
            &&& forall|i: int|
                0 <= i < width - text.len() ==> #[trigger] padded_front(text, width)[i] == ' '
        },
{
    if text.len() < width {
        assert(padded(text, width).take(text.len() as int) =~= text);
        assert(padded_front(text, width).skip(width - text.len()) =~= text);
    }
}

/// The two cases of an ASCII letter are the same where case is ignored.
pub proof fn law_the_two_cases_of_a_letter_are_the_same(a: Seq<char>, b: Seq<char>)
    requires
        a.len() == b.len(),
        forall|i: int|
            0 <= i < a.len() ==> #[trigger] a[i] == b[i] || ('A' <= a[i] <= 'Z' && b[i] as int
                == a[i] as int + 32) || ('A' <= b[i] <= 'Z' && a[i] as int == b[i] as int + 32),
    ensures
        same_ignoring_case(a, b),
{
    assert forall|i: int| 0 <= i < a.len() implies ascii_lower(#[trigger] a[i]) == ascii_lower(
        b[i],
    ) by {
        assert(a[i] == b[i] || ('A' <= a[i] <= 'Z' && b[i] as int == a[i] as int + 32) || ('A'
            <= b[i] <= 'Z' && a[i] as int == b[i] as int + 32));
        lemma_ascii_lower(a[i]);
        lemma_ascii_lower(b[i]);
    }
}

/// A digit more is ten times as much and the digit, as long as that can be counted;
/// beyond that the number is too large. A plus sign before a number changes nothing.
pub proof fn law_a_number_is_read_digit_by_digit(s: Seq<char>, n: u64, c: char)
    requires
        number_of(s) == Ok::<u64, NumberError>(n),
        '0' <= c <= '9',
    ensures
        n * 10 + (c as int - '0' as int) <= u64::MAX ==> number_of(s.push(c)) == Ok::<
            u64,
            NumberError,
        >((n * 10 + (c as int - '0' as int)) as u64),
        n * 10 + (c as int - '0' as int) > u64::MAX ==> number_of(s.push(c)) == Err::<
            u64,
            NumberError,
        >(NumberError::TooLarge),
        s[0] != '+' ==> number_of(seq!['+'] + s) == number_of(s),
        number_of(seq![c]) == Ok::<u64, NumberError>((c as int - '0' as int) as u64),
{
    let more = s.push(c);
    if s.len() > 1 && s[0] == '+' {
        lemma_number_from_push(s.drop_first(), 0, c);
        assert(more.drop_first() =~= s.drop_first().push(c));
    } else {
        if s[0] == '+' {
            assert(digit_value(s[0]) is None);
        }
        lemma_number_from_push(s, 0, c);
    }
    let signed = seq!['+'] + s;
    assert(signed.drop_first() =~= s);
    reveal_with_fuel(number_from, 3);
    assert(seq![c].drop_first() =~= Seq::<char>::empty());
}

proof fn lemma_number_from_push(s: Seq<char>, acc: nat, c: char)
    requires
        acc <= u64::MAX,
        number_from(s, acc) is Ok,
        '0' <= c <= '9',
    ensures
        ({
            let n = number_from(s, acc)->Ok_0;
            let d = c as int - '0' as int;
            &&& n * 10 + d <= u64::MAX ==> number_from(s.push(c), acc) == Ok::<u64, NumberError>(
                (n * 10 + d) as u64,
            )
            &&& n * 10 + d > u64::MAX ==> number_from(s.push(c), acc) == Err::<u64, NumberError>(
                NumberError::TooLarge,
            )
        }),
    decreases s.len(),
{
    reveal_with_fuel(number_from, 2);
    if s.len() == 0 {
        assert(s.push(c).drop_first() =~= Seq::<char>::empty());
    } else {
        let d = digit_value(s[0])->0;
        assert(s.push(c).drop_first() =~= s.drop_first().push(c));
        lemma_number_from_push(s.drop_first(), acc * 10 + d, c);
    }
}

/// Of the ASCII characters the blank and those from the tab to the carriage return are
/// white space, and those below the blank and the last one are control characters.
pub proof fn law_what_is_white_and_what_controls(c: char)
    requires
        c <= '\u{7f}',
    ensures
        is_white(c) <==> c == ' ' || c == '\t' || c == '\n' || c == '\u{b}' || c == '\u{c}' || c
            == '\r',
        is_control_char(c) <==> c < ' ' || c == '\u{7f}',
{
}

} // verus!
