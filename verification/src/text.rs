//! Text as a sequence of characters: the small operations on strings that the
//! rest of the library is built from.

use vstd::prelude::*;

verus! {

/// `String::push` appends one character.
pub assume_specification[ String::push ](string: &mut String, ch: char)
    ensures
        final(string)@ == old(string)@.push(ch),
;

/// `String::push_str` appends a whole string slice.
pub assume_specification[ String::push_str ](string: &mut String, other: &str)
    ensures
        final(string)@ == old(string)@ + other@,
;

/// Whether a character has the Unicode `White_Space` property: the controls from tab
/// to carriage return, and the spaces and separators that follow.
pub open spec fn white_space(ch: char) -> bool {
    let code = ch as u32;
    ||| 0x09 <= code <= 0x0d
    ||| code == 0x20
    ||| code == 0x85
    ||| code == 0xa0
    ||| code == 0x1680
    ||| 0x2000 <= code <= 0x200a
    ||| code == 0x2028
    ||| code == 0x2029
    ||| code == 0x202f
    ||| code == 0x205f
    ||| code == 0x3000
}

/// `char::is_whitespace` tells whether a character has the `White_Space` property,
/// which the Unicode Character Database gives to these code points and to no other.
pub assume_specification[ char::is_whitespace ](ch: char) -> (answer: bool)
    ensures
        answer == white_space(ch),
;

/// What `str::to_lowercase` makes of a text.
pub uninterp spec fn lowercased(text: Seq<char>) -> Seq<char>;

/// Calls `str::to_lowercase`, whose result depends on the text alone (it follows
/// the Unicode tables and no locale).
#[verifier::external_body]
pub(crate) fn lowercase(text: &str) -> (lower: String)
    ensures
        lower@ == lowercased(text@),
{
    text.to_lowercase()
}

/// What `char::to_uppercase` makes of a character: one character or more.
pub uninterp spec fn uppercased(ch: char) -> Seq<char>;

/// Calls `char::to_uppercase`, whose result depends on the character alone.
#[verifier::external_body]
pub(crate) fn uppercase(ch: char) -> (upper: String)
    ensures
        upper@ == uppercased(ch),
{
    ch.to_uppercase().to_string()
}

/// The characters of a text, in order.
pub fn characters(text: &str) -> (chars: Vec<char>)
    ensures
        chars@ == text@,
{
    let mut chars: Vec<char> = Vec::new();
    for ch in it: text.chars()
        invariant
            it.seq() == text@,
            chars@ == text@.take(it.index() as int),
    {
        chars.push(ch);
        assert(chars@ =~= text@.take(it.index() + 1));
    }
    assert(text@.take(text@.len() as int) =~= text@);
    chars
}

/// Puts the characters from `start` up to `end` together again.
pub fn text_between(chars: &[char], start: usize, end: usize) -> (text: String)
    requires
        start <= end <= chars@.len(),
    ensures
        text@ == chars@.subrange(start as int, end as int),
{
    let mut text = String::new();
    let mut i: usize = start;
    while i < end
        invariant
            start <= i <= end <= chars@.len(),
            text@ == chars@.subrange(start as int, i as int),
        decreases end - i,
    {
        text.push(chars[i]);
        i += 1;
        assert(text@ =~= chars@.subrange(start as int, i as int));
    }
    text
}

/// Whether two texts hold the same characters.
pub fn same_text(left: &str, right: &str) -> (same: bool)
    ensures
        same == (left@ == right@),
{
    left.to_owned() == right.to_owned()
}

/// The text with its leading white space removed.
pub open spec fn without_leading_space(text: Seq<char>) -> Seq<char>
    decreases text.len(),
{
    if text.len() > 0 && white_space(text[0]) {
        without_leading_space(text.drop_first())
    } else {
        text
    }
}

/// The text with its trailing white space removed.
pub open spec fn without_trailing_space(text: Seq<char>) -> Seq<char>
    decreases text.len(),
{
    if text.len() > 0 && white_space(text.last()) {
        without_trailing_space(text.drop_last())
    } else {
        text
    }
}

/// The text without the white space around it.
pub open spec fn trimmed(text: Seq<char>) -> Seq<char> {
    without_trailing_space(without_leading_space(text))
}

/// Removes the white space around a text.
pub fn trim(text: &str) -> (inner: String)
    ensures
        inner@ == trimmed(text@),
{
    let chars = characters(text);
    let mut start: usize = 0;
    assert(chars@.skip(0) =~= text@);
    while start < chars.len() && chars[start].is_whitespace()
        invariant
            start <= chars@.len(),
            chars@ == text@,
            without_leading_space(chars@.skip(start as int)) == without_leading_space(text@),
        decreases chars@.len() - start,
    {
        assert(chars@.skip(start as int).drop_first() =~= chars@.skip(start + 1));
        start += 1;
    }
    let ghost lead = chars@.skip(start as int);
    assert(without_leading_space(text@) == lead);
    let mut end: usize = chars.len();
    while end > start && chars[end - 1].is_whitespace()
        invariant
            start <= end <= chars@.len(),
            lead == chars@.skip(start as int),
            without_trailing_space(chars@.subrange(start as int, end as int))
                == without_trailing_space(lead),
        decreases end,
    {
        assert(chars@.subrange(start as int, end as int).drop_last() =~= chars@.subrange(
            start as int,
            end - 1,
        ));
        assert(chars@.subrange(start as int, end as int).last() == chars@[end - 1]);
        end -= 1;
    }
    assert(end > start ==> chars@.subrange(start as int, end as int).last() == chars@[end - 1]);
    text_between(&chars, start, end)
}

/// Whether `part` stands in `text` at position `at`.
pub open spec fn stands_at(text: Seq<char>, part: Seq<char>, at: int) -> bool {
    &&& 0 <= at
    &&& at + part.len() <= text.len()
    &&& text.subrange(at, at + part.len()) == part
}

/// Whether `part` stands somewhere in `text`.
pub open spec fn contains_text(text: Seq<char>, part: Seq<char>) -> bool {
    exists|at: int| stands_at(text, part, at)
}

/// Whether `part` stands in `chars` at position `at`.
fn found_at(chars: &[char], part: &[char], at: usize) -> (found: bool)
    ensures
        found == stands_at(chars@, part@, at as int),
{
    if part.len() > chars.len() || at > chars.len() - part.len() {
        return false;
    }
    let count: usize = chars.len();
    let mut i: usize = 0;
    while i < part.len()
        invariant
            i <= part@.len(),
            count == chars@.len(),
            at + part@.len() <= count,
            forall|j: int| 0 <= j < i ==> chars@[at + j] == part@[j],
        decreases part@.len() - i,
    {
        if chars[at + i] != part[i] {
            assert(chars@.subrange(at as int, at + part@.len())[i as int] != part@[i as int]);
            return false;
        }
        i += 1;
    }
    assert(chars@.subrange(at as int, at + part@.len()) =~= part@);
    true
}

/// Looks for `part` in `text`.
pub fn contains(text: &str, part: &str) -> (found: bool)
    ensures
        found == contains_text(text@, part@),
{
    let chars = characters(text);
    let wanted = characters(part);
    if wanted.len() > chars.len() {
        return false;
    }
    let last: usize = chars.len() - wanted.len();
    let mut at: usize = 0;
    loop
        invariant
            chars@ == text@,
            wanted@ == part@,
            last == chars@.len() - wanted@.len(),
            at <= last,
            forall|j: int| 0 <= j < at ==> !stands_at(text@, part@, j),
        decreases last - at,
    {
        if found_at(&chars, &wanted, at) {
            assert(stands_at(text@, part@, at as int));
            return true;
        }
        if at == last {
            return false;
        }
        at += 1;
    }
}

/// Whether `text` begins with `start`.
pub fn starts_with(text: &str, start: &str) -> (found: bool)
    ensures
        found == stands_at(text@, start@, 0),
{
    let chars = characters(text);
    let wanted = characters(start);
    found_at(&chars, &wanted, 0)
}

/// The decimal digit for a number below ten.
pub open spec fn digit(value: int) -> char {
    if value == 0 { '0' } else if value == 1 { '1' } else if value == 2 { '2' }
    else if value == 3 { '3' } else if value == 4 { '4' } else if value == 5 { '5' }
    else if value == 6 { '6' } else if value == 7 { '7' } else if value == 8 { '8' }
    else { '9' }
}

/// A natural number in decimal, without leading zeros.
pub open spec fn digits(value: int) -> Seq<char>
    decreases value,
{
    if value < 10 {
        seq![digit(value)]
    } else {
        digits(value / 10).push(digit(value % 10))
    }
}

/// An integer in decimal, with a minus sign where it is negative.
pub open spec fn decimal(value: int) -> Seq<char> {
    if value < 0 {
        seq!['-'] + digits(-value)
    } else {
        digits(value)
    }
}

/// The decimal digit for a number below ten.
fn digit_char(value: u64) -> (ch: char)
    requires
        value < 10,
    ensures
        ch == digit(value as int),
{
    match value {
        0 => '0',
        1 => '1',
        2 => '2',
        3 => '3',
        4 => '4',
        5 => '5',
        6 => '6',
        7 => '7',
        8 => '8',
        _ => '9',
    }
}

/// Writes a natural number in decimal behind `out`.
pub fn push_number(out: &mut String, value: u64)
    ensures
        final(out)@ == old(out)@ + digits(value as int),
    decreases value,
{
    if value >= 10 {
        push_number(out, value / 10);
    }
    out.push(digit_char(value % 10));
    assert(out@ =~= old(out)@ + digits(value as int));
}

/// A natural number in decimal.
pub fn number_text(value: u64) -> (text: String)
    ensures
        text@ == digits(value as int),
{
    let mut text = String::new();
    push_number(&mut text, value);
    assert(text@ =~= digits(value as int));
    text
}

/// Writes an integer in decimal behind `out`.
pub fn push_integer(out: &mut String, value: i64)
    ensures
        final(out)@ == old(out)@ + decimal(value as int),
{
    if value >= 0 {
        push_number(out, value as u64);
    } else {
        out.push('-');
        let magnitude: u64 = if value == i64::MIN { 0x8000_0000_0000_0000 } else { (-value) as u64 };
        push_number(out, magnitude);
        assert(out@ =~= old(out)@ + (seq!['-'] + digits(-(value as int))));
    }
}

/// A number below one hundred in two decimal digits.
pub open spec fn two_digits(value: int) -> Seq<char> {
    seq![digit(value / 10), digit(value % 10)]
}

/// Writes a number in decimal behind `out`, with at least two digits.
pub fn push_padded(out: &mut String, value: u64)
    ensures
        final(out)@ == old(out)@ + (if value < 100 { two_digits(value as int) } else { digits(value as int) }),
{
    if value < 100 {
        out.push(digit_char(value / 10));
        out.push(digit_char(value % 10));
        assert(out@ =~= old(out)@ + two_digits(value as int));
    } else {
        push_number(out, value);
    }
}

/// A duration in minutes and seconds, both cut off towards zero.
pub open spec fn minutes_text(seconds: int) -> Seq<char> {
    let minutes = if seconds >= 0 { seconds / 60 } else { -((-seconds) / 60) };
    let rest = if seconds >= 0 { seconds % 60 } else { -((-seconds) % 60) };
    decimal(minutes) + ":"@ + (if rest >= 0 { two_digits(rest) } else { decimal(rest) })
}

/// Writes a duration in minutes and seconds.
pub fn duration_text(seconds: i32) -> (text: String)
    ensures
        text@ == minutes_text(seconds as int),
{
    let mut text = String::new();
    let total: i64 = seconds as i64;
    if total >= 0 {
        push_integer(&mut text, total / 60);
        text.push_str(":");
        push_padded(&mut text, (total % 60) as u64);
    } else {
        let size: i64 = -total;
        push_integer(&mut text, -(size / 60));
        text.push_str(":");
        let rest: i64 = size % 60;
        if rest == 0 {
            push_padded(&mut text, 0);
        } else {
            push_integer(&mut text, -rest);
        }
    }
    assert(text@ =~= minutes_text(seconds as int));
    text
}

} // verus!
