//! Reading text: comparison, search, numbers and surrounding whitespace.

use vstd::prelude::*;
use vstd::utf8::*;

verus! {

/// What an optional text reads.
pub open spec fn optional_view(text: Option<String>) -> Option<Seq<char>> {
    match text {
        Some(text) => Some(text@),
        None => None,
    }
}

/// The characters of a text.
pub fn to_chars(text: &str) -> (chars: Vec<char>)
    ensures
        chars@ == text@,
{
    let mut chars: Vec<char> = Vec::new();
    for c in it: text.chars()
        invariant
            it.seq() == text@,
            chars@ == text@.take(it.index() as int),
    {
        chars.push(c);
    }
    assert(text@.take(text@.len() as int) =~= text@);
    chars
}

/// Whether two texts are the same.
pub fn same_text(a: &str, b: &str) -> (same: bool)
    ensures
        same == (a@ == b@),
{
    let (x, y) = (a.as_bytes(), b.as_bytes());
    proof {
        encode_utf8_decode_utf8(a@);
        encode_utf8_decode_utf8(b@);
    }
    if x.len() != y.len() {
        return false;
    }
    let mut i: usize = 0;
    while i < x.len()
        invariant
            i <= x.len() == y.len(),
            x@ == encode_utf8(a@),
            y@ == encode_utf8(b@),
            forall|j: int| 0 <= j < i ==> x@[j] == y@[j],
        decreases x.len() - i,
    {
        if x[i] != y[i] {
            return false;
        }
        i = i + 1;
    }
    assert(x@ =~= y@);
    true
}

/// Calls `String::from_utf8`.
///
/// It is believed that this succeeds on valid UTF-8 and on nothing else, and that the
/// text it then returns is encoded as the given bytes.
#[verifier::external_body]
pub(crate) fn text_from_utf8(bytes: Vec<u8>) -> (text: Option<String>)
    ensures
        text is Some <==> valid_utf8(bytes@),
        text matches Some(text) ==> encode_utf8(text@) == bytes@,
{
    String::from_utf8(bytes).ok()
}

/// Whether `part` stands in `text` from index `at` on.
pub open spec fn stands_at(text: Seq<char>, part: Seq<char>, at: int) -> bool {
    0 <= at <= text.len() - part.len() && text.subrange(at, at + part.len()) == part
}

/// Whether `part` stands somewhere in `text`.
pub open spec fn has_part(text: Seq<char>, part: Seq<char>) -> bool {
    exists|at: int| stands_at(text, part, at)
}

/// Whether `part` stands somewhere in `text`.
pub fn contains_text(text: &str, part: &str) -> (found: bool)
    ensures
        found == has_part(text@, part@),
{
    let (t, p) = (to_chars(text), to_chars(part));
    if p.len() > t.len() {
        return false;
    }
    let mut at: usize = 0;
    while at <= t.len() - p.len()
        invariant
            t@ == text@,
            p@ == part@,
            p.len() <= t.len(),
            at <= t.len() - p.len() + 1,
            forall|k: int| 0 <= k < at ==> !stands_at(text@, part@, k),
        decreases t.len() - p.len() + 1 - at,
    {
        let mut i: usize = 0;
        while i < p.len() && t[at + i] == p[i]
            invariant
                p.len() <= t.len(),
                at <= t.len() - p.len(),
                i <= p.len(),
                forall|j: int| 0 <= j < i ==> t@[at + j] == p@[j],
            decreases p.len() - i,
        {
            i = i + 1;
        }
        if i == p.len() {
            assert(text@.subrange(at as int, at + part@.len()) =~= part@);
            assert(stands_at(text@, part@, at as int));
            return true;
        }
        assert(!stands_at(text@, part@, at as int)) by {
            assert(text@.subrange(at as int, at + part@.len())[i as int] != part@[i as int]);
        }
        at = at + 1;
    }
    false
}

/// The digits of a number: the text without a leading plus sign.
pub open spec fn digits(text: Seq<char>) -> Seq<char> {
    if text.len() > 0 && text[0] == '+' {
        text.skip(1)
    } else {
        text
    }
}

/// Whether a text is a number: decimal digits, at least one, behind an optional plus
/// sign.
pub open spec fn is_number(text: Seq<char>) -> bool {
    &&& digits(text).len() > 0
    &&& forall|i: int| 0 <= i < digits(text).len() ==> '0' <= #[trigger] digits(text)[i] <= '9'
}

/// The value of decimal digits.
pub open spec fn value(digits: Seq<char>) -> int
    decreases digits.len(),
{
    if digits.len() == 0 {
        0
    } else {
        value(digits.drop_last()) * 10 + (digits.last() as int - '0' as int)
    }
}

/// The number that a text gives, where it is one and not larger than `max`.
pub open spec fn number(text: Seq<char>, max: int) -> Option<int> {
    if is_number(text) && value(digits(text)) <= max {
        Some(value(digits(text)))
    } else {
        None
    }
}

/// Further digits do not make a number smaller.
pub(crate) proof fn lemma_value_grows(digits: Seq<char>, n: int)
    requires
        0 <= n <= digits.len(),
        forall|i: int| 0 <= i < digits.len() ==> '0' <= #[trigger] digits[i] <= '9',
    ensures
        0 <= value(digits.take(n)) <= value(digits),
    decreases digits.len(),
{
    if n == digits.len() {
        assert(digits.take(n) =~= digits);
        if n > 0 {
            lemma_value_grows(digits.drop_last(), n - 1);
        }
    } else {
        assert(digits.drop_last().take(n) =~= digits.take(n));
        lemma_value_grows(digits.drop_last(), n);
        assert('0' <= digits[digits.len() - 1]);
    }
}

/// Reads an unsigned decimal number of at most `max`.
pub fn parse_number(text: &str, max: u64) -> (result: Option<u64>)
    ensures
        match result {
            Some(n) => number(text@, max as int) == Some(n as int),
            None => number(text@, max as int) is None,
        },
{
    let chars = to_chars(text);
    let start: usize = if chars.len() > 0 && chars[0] == '+' {
        1
    } else {
        0
    };
    let ghost ds = digits(text@);
    assert(ds =~= text@.skip(start as int));
    if start == chars.len() {
        return None;
    }
    let mut n: u64 = 0;
    let mut i: usize = start;
    assert(ds.take(0) =~= Seq::<char>::empty());
    while i < chars.len()
        invariant
            start <= i <= chars.len(),
            chars@ == text@,
            ds == digits(text@),
            ds == text@.skip(start as int),
            n <= max,
            n == value(ds.take(i - start)),
            forall|j: int| 0 <= j < i - start ==> '0' <= #[trigger] ds[j] <= '9',
        decreases chars.len() - i,
    {
        let c = chars[i];
        assert(c == ds[i - start]);
        if c < '0' || c > '9' {
            return None;
        }
        let digit: u64 = (c as u32 - '0' as u32) as u64;
        assert(ds.take(i - start + 1).drop_last() =~= ds.take(i - start));
        if n as u128 * 10 + digit as u128 > max as u128 {
            proof {
                if is_number(text@) {
                    lemma_value_grows(ds, i - start + 1);
                }
            }
            return None;
        }
        n = n * 10 + digit;
        i = i + 1;
    }
    assert(ds.take(ds.len() as int) =~= ds);
    Some(n)
}

/// Whether a character has the Unicode property `White_Space`.
pub open spec fn is_space(c: char) -> bool {
    ||| '\u{9}' <= c <= '\u{d}'
    ||| c == '\u{20}'
    ||| c == '\u{85}'
    ||| c == '\u{a0}'
    ||| c == '\u{1680}'
    ||| '\u{2000}' <= c <= '\u{200a}'
    ||| c == '\u{2028}'
    ||| c == '\u{2029}'
    ||| c == '\u{202f}'
    ||| c == '\u{205f}'
    ||| c == '\u{3000}'
}

fn char_is_space(c: char) -> (space: bool)
    ensures
        space == is_space(c),
{
    ('\u{9}' <= c && c <= '\u{d}') || c == '\u{20}' || c == '\u{85}' || c == '\u{a0}' || c
        == '\u{1680}' || ('\u{2000}' <= c && c <= '\u{200a}') || c == '\u{2028}' || c
        == '\u{2029}' || c == '\u{202f}' || c == '\u{205f}' || c == '\u{3000}'
}

/// Whether `core` is `text` without the whitespace around it.
pub open spec fn is_trimmed(text: Seq<char>, core: Seq<char>) -> bool {
    exists|from: int, to: int| #[trigger] trims_to(text, core, from, to)
}

/// Whether `core` is what stands from `from` to `to` in `text`, begins and ends with no
/// whitespace, and has nothing but whitespace around it.
pub open spec fn trims_to(text: Seq<char>, core: Seq<char>, from: int, to: int) -> bool {
    &&& 0 <= from <= to <= text.len()
    &&& core == text.subrange(from, to)
    &&& forall|i: int| 0 <= i < from ==> is_space(#[trigger] text[i])
    &&& forall|i: int| to <= i < text.len() ==> is_space(#[trigger] text[i])
    &&& from < to ==> !is_space(text[from]) && !is_space(text[to - 1])
}

/// A text without the whitespace around it.
pub fn trim(text: &str) -> (core: &str)
    ensures
        is_trimmed(text@, core@),
{
    let chars = to_chars(text);
    let mut to: usize = chars.len();
    while to > 0 && char_is_space(chars[to - 1])
        invariant
            to <= chars.len(),
            chars@ == text@,
            forall|i: int| to <= i < chars.len() ==> is_space(#[trigger] text@[i]),
        decreases to,
    {
        to = to - 1;
    }
    let mut from: usize = 0;
    while from < to && char_is_space(chars[from])
        invariant
            from <= to <= chars.len(),
            chars@ == text@,
            forall|i: int| 0 <= i < from ==> is_space(#[trigger] text@[i]),
        decreases to - from,
    {
        from = from + 1;
    }
    let core = text.substring_char(from, to);
    assert(trims_to(text@, core@, from as int, to as int));
    core
}

/// There is only one way to take the whitespace around a text away.
pub proof fn trimming_is_unique(text: Seq<char>, a: Seq<char>, b: Seq<char>)
    requires
        is_trimmed(text, a),
        is_trimmed(text, b),
    ensures
        a == b,
{
    let (f, t) = choose|f: int, t: int| trims_to(text, a, f, t);
    let (g, u) = choose|g: int, u: int| trims_to(text, b, g, u);
    if f == t && g < u {
        assert(!is_space(text[g]));
    }
    if g == u && f < t {
        assert(!is_space(text[f]));
    }
    if f < t && g < u {
        assert(f == g && t == u);
    } else {
        assert(a =~= b);
    }
}

/// A part is found in a text exactly where the text can be split around it.
pub proof fn part_is_found_anywhere(text: Seq<char>, part: Seq<char>)
    ensures
        has_part(text, part) <==> exists|before: Seq<char>, after: Seq<char>|
            text == #[trigger] (before + part + after),
{
    if has_part(text, part) {
        let at = choose|at: int| stands_at(text, part, at);
        assert(text =~= text.take(at) + part + text.skip(at + part.len()));
    }
    if exists|before: Seq<char>, after: Seq<char>| text == #[trigger] (before + part + after) {
        let (before, after) = choose|before: Seq<char>, after: Seq<char>|
            text == #[trigger] (before + part + after);
        let at = before.len() as int;
        assert(text.subrange(at, at + part.len()) =~= part);
        assert(stands_at(text, part, at));
    }
}

/// A single decimal digit is the number that it shows, where that is small enough.
pub proof fn digit_is_a_number(c: char, max: int)
    requires
        48 <= c as int <= 57,
    ensures
        c as int - 48 <= max ==> number(seq![c], max) == Some(c as int - 48),
        c as int - 48 > max ==> number(seq![c], max) is None,
{
    assert(digits(seq![c]) =~= seq![c]);
    assert(seq![c].drop_last() =~= Seq::<char>::empty());
    reveal_with_fuel(value, 2);
}

/// One more digit makes a number ten times as large and adds the digit, and makes it none
/// where that is more than the maximum.
pub proof fn further_digit_counts_ten_times(
    text: Seq<char>,
    n: int,
    large: int,
    c: char,
    max: int,
)
    requires
        number(text, large) == Some(n),
        48 <= c as int <= 57,
    ensures
        n * 10 + (c as int - 48) <= max ==> number(text.push(c), max) == Some(
            n * 10 + (c as int - 48),
        ),
        n * 10 + (c as int - 48) > max ==> number(text.push(c), max) is None,
{
    assert(digits(text.push(c)) =~= digits(text).push(c));
    assert(digits(text).push(c).drop_last() =~= digits(text));
    assert forall|i: int| 0 <= i < digits(text.push(c)).len() implies '0' <= #[trigger] digits(
        text.push(c),
    )[i] <= '9' by {
        if i < digits(text).len() {
            assert(digits(text)[i] == digits(text.push(c))[i]);
        }
    }
}

/// A plus sign in front changes nothing.
pub proof fn plus_sign_changes_nothing(text: Seq<char>, max: int)
    requires
        text.len() > 0 ==> text[0] != '+',
    ensures
        number(seq!['+'] + text, max) == number(text, max),
{
    assert((seq!['+'] + text).skip(1) =~= text);
}

/// A text is no number where it has no digits, or anything that is no digit but for a plus
/// sign in front.
pub proof fn other_texts_are_no_numbers(text: Seq<char>, i: int, max: int)
    requires
        text.len() == 0 || text == seq!['+'] || (0 <= i < text.len() && !(48 <= text[i] as int
            <= 57) && !(i == 0 && text[0] == '+')),
    ensures
        number(text, max) is None,
{
    if text == seq!['+'] {
        assert(text.skip(1).len() == 0);
    } else if text.len() > 0 {
        if text[0] == '+' {
            assert(digits(text)[i - 1] == text[i]);
        } else {
            assert(digits(text)[i] == text[i]);
        }
    }
}

/// The characters that count as whitespace, by their code points.
pub proof fn whitespace_is_that_of_unicode(c: char)
    ensures
        is_space(c) <==> {
            ||| 9 <= c as int <= 13
            ||| c as int == 32
            ||| c as int == 133
            ||| c as int == 160
            ||| c as int == 5760
            ||| 8192 <= c as int <= 8202
            ||| c as int == 8232
            ||| c as int == 8233
            ||| c as int == 8239
            ||| c as int == 8287
            ||| c as int == 12288
        },
{
}

/// Whitespace around a text is taken away, all of it, and nothing else is.
pub proof fn whitespace_around_is_taken_away(
    before: Seq<char>,
    core: Seq<char>,
    after: Seq<char>,
    trimmed: Seq<char>,
)
    requires
        forall|i: int| 0 <= i < before.len() ==> is_space(#[trigger] before[i]),
        forall|i: int| 0 <= i < after.len() ==> is_space(#[trigger] after[i]),
        core.len() > 0 ==> !is_space(core[0]) && !is_space(core.last()),
    ensures
        is_trimmed(before + core + after, trimmed) <==> trimmed == core,
{
    let text = before + core + after;
    let from = before.len() as int;
    let to = from + core.len();
    assert(text.subrange(from, to) =~= core);
    assert forall|i: int| 0 <= i < from implies is_space(#[trigger] text[i]) by {
        assert(text[i] == before[i]);
    }
    assert forall|i: int| to <= i < text.len() implies is_space(#[trigger] text[i]) by {
        assert(text[i] == after[i - to]);
    }
    assert(trims_to(text, core, from, to));
    if is_trimmed(text, trimmed) {
        trimming_is_unique(text, trimmed, core);
    }
}

/// Reading a number gives the number that the text is, and none where it is none.
pub proof fn number_reading_in_full(text: &str, max: u64, result: Option<u64>, n: int)
    requires
        call_ensures(parse_number, (text, max), result),
    ensures
        number(text@, max as int) == Some(n) ==> (result matches Some(read) && read == n),
        number(text@, max as int) is None ==> result is None,
{
}

} // verus!
