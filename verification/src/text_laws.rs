//! What holds of texts: what trimming leaves, how numbers are written, and what is
//! found where.

use vstd::prelude::*;

use crate::text::{
    contains_text, decimal, digit, digits, minutes_text, stands_at, trimmed, two_digits,
    white_space, without_leading_space, without_trailing_space,
};

verus! {

proof fn lemma_without_leading(text: Seq<char>) -> (start: int)
    ensures
        0 <= start <= text.len(),
        without_leading_space(text) == text.skip(start),
        forall|i: int| 0 <= i < start ==> white_space(#[trigger] text[i]),
        start < text.len() ==> !white_space(text[start]),
    decreases text.len(),
{
    if text.len() > 0 && white_space(text[0]) {
        let rest = text.drop_first();
        let inner = lemma_without_leading(rest);
        assert(rest.skip(inner) =~= text.skip(inner + 1));
        assert forall|i: int| 0 <= i < inner + 1 implies white_space(#[trigger] text[i]) by {
            if i > 0 {
                assert(rest[i - 1] == text[i]);
            }
        }
        if inner < rest.len() {
            assert(rest[inner] == text[inner + 1]);
        }
        inner + 1
    } else {
        assert(text.skip(0) =~= text);
        0
    }
}

proof fn lemma_without_trailing(text: Seq<char>) -> (end: int)
    ensures
        0 <= end <= text.len(),
        without_trailing_space(text) == text.take(end),
        forall|i: int| end <= i < text.len() ==> white_space(#[trigger] text[i]),
        end > 0 ==> !white_space(text[end - 1]),
    decreases text.len(),
{
    if text.len() > 0 && white_space(text.last()) {
        let rest = text.drop_last();
        let inner = lemma_without_trailing(rest);
        assert(rest.take(inner) =~= text.take(inner));
        assert forall|i: int| inner <= i < text.len() implies white_space(#[trigger] text[i]) by {
            if i < rest.len() {
                assert(rest[i] == text[i]);
            }
        }
        if inner > 0 {
            assert(rest[inner - 1] == text[inner - 1]);
        }
        inner
    } else {
        assert(text.take(text.len() as int) =~= text);
        text.len() as int
    }
}

/// Trimming takes white space away from both ends and nothing else: what is left
/// stands in the text, only white space stands around it, and neither of its ends is
/// white space.
pub proof fn law_trimming_takes_white_space_only(text: Seq<char>) -> (start: int)
    ensures
        0 <= start <= start + trimmed(text).len() <= text.len(),
        text.subrange(start, start + trimmed(text).len()) == trimmed(text),
        forall|i: int| 0 <= i < start ==> white_space(#[trigger] text[i]),
        forall|i: int|
            start + trimmed(text).len() <= i < text.len() ==> white_space(#[trigger] text[i]),
        trimmed(text).len() > 0 ==> !white_space(trimmed(text)[0]) && !white_space(
            trimmed(text).last(),
        ),
{
    let start = lemma_without_leading(text);
    let rest = text.skip(start);
    let end = lemma_without_trailing(rest);
    assert(text.subrange(start, start + end) =~= rest.take(end));
    assert forall|i: int| start + end <= i < text.len() implies white_space(#[trigger] text[i]) by {
        assert(rest[i - start] == text[i]);
    }
    if end > 0 {
        assert(rest[0] == text[start]);
    }
    start
}

/// A text with white space around it is trimmed to what it is without.
pub proof fn law_trimming_finds_the_text(
    front: Seq<char>,
    text: Seq<char>,
    back: Seq<char>,
)
    requires
        forall|i: int| 0 <= i < front.len() ==> white_space(#[trigger] front[i]),
        forall|i: int| 0 <= i < back.len() ==> white_space(#[trigger] back[i]),
        text.len() > 0,
        !white_space(text[0]),
        !white_space(text.last()),
    ensures
        trimmed(front + text + back) == text,
{
    let all = front + text + back;
    let start = law_trimming_takes_white_space_only(all);
    let inner = trimmed(all);
    let first = front.len() as int;
    let last = first + text.len() - 1;
    assert(all[first] == text[0]);
    assert(all[last] == text[text.len() - 1]);
    assert(start <= first && last < start + inner.len());
    if start < first {
        assert(inner[0] == all[start]);
        assert(all[start] == front[start]);
    }
    if last + 1 < start + inner.len() {
        let end = start + inner.len() - 1;
        assert(inner[inner.len() - 1] == all[end]);
        assert(all[end] == back[end - first - text.len()]);
    }
    assert(inner =~= text);
}

/// Only what holds nothing but white space is trimmed away altogether.
pub proof fn law_blank_texts_are_trimmed_away(text: Seq<char>)
    ensures
        trimmed(text).len() == 0 <==> forall|i: int|
            0 <= i < text.len() ==> white_space(#[trigger] text[i]),
{
    let start = law_trimming_takes_white_space_only(text);
    if trimmed(text).len() > 0 {
        assert(trimmed(text)[0] == text[start]);
    }
}

/// Numbers are written in decimal: a number below ten as its digit, any other as the
/// number without its last digit, and that digit. A negative number has a sign.
pub proof fn law_numbers_are_written_in_decimal(front: int, last: int)
    requires
        front >= 0,
        0 <= last < 10,
    ensures
        digits(last).len() == 1,
        digits(last)[0] as int == 48 + last,
        front > 0 ==> digits(10 * front + last) == digits(front) + digits(last),
        decimal(front) == digits(front),
        front > 0 ==> decimal(-front) == seq!['-'] + digits(front),
        two_digits(last) == seq!['0'] + digits(last),
        10 <= 10 * front + last < 100 ==> two_digits(10 * front + last) == digits(
            10 * front + last,
        ),
{
    reveal_with_fuel(digits, 3);
    if front > 0 {
        assert((10 * front + last) / 10 == front);
        assert((10 * front + last) % 10 == last);
        assert(digits(10 * front + last) =~= digits(front) + digits(last));
    }
    assert(last / 10 == 0 && last % 10 == last);
    assert(two_digits(last) =~= seq!['0'] + digits(last));
    if 10 <= 10 * front + last < 100 {
        assert(two_digits(10 * front + last) =~= digits(10 * front + last));
    }
}

/// Two digits are written as the tens and the ones.
pub proof fn law_two_digits(tens: int, ones: int)
    requires
        0 <= tens < 10,
        0 <= ones < 10,
    ensures
        two_digits(10 * tens + ones).len() == 2,
        two_digits(10 * tens + ones)[0] as int == 48 + tens,
        two_digits(10 * tens + ones)[1] as int == 48 + ones,
{
    assert((10 * tens + ones) / 10 == tens && (10 * tens + ones) % 10 == ones);
}

proof fn lemma_digits_differ(left: int, right: int)
    requires
        0 <= left,
        0 <= right,
        digits(left) == digits(right),
    ensures
        left == right,
    decreases left,
{
    lemma_digits_len(left);
    lemma_digits_len(right);
    if left < 10 && right < 10 {
        assert(digits(left)[0] == digit(left) && digits(right)[0] == digit(right));
    } else if left >= 10 && right >= 10 {
        assert(digits(left).drop_last() =~= digits(left / 10));
        assert(digits(right).drop_last() =~= digits(right / 10));
        assert(digits(left).last() == digit(left % 10));
        assert(digits(right).last() == digit(right % 10));
        lemma_digits_differ(left / 10, right / 10);
    } else if left < 10 {
        lemma_digits_len(right / 10);
    } else {
        lemma_digits_len(left / 10);
    }
}

proof fn lemma_digits_len(value: int)
    requires
        0 <= value,
    ensures
        digits(value).len() >= 1,
        digits(value)[0] != '-',
    decreases value,
{
    if value >= 10 {
        lemma_digits_len(value / 10);
        assert(digits(value)[0] == digits(value / 10)[0]);
    }
}

/// Different numbers are written differently.
pub proof fn law_numbers_are_told_apart(left: int, right: int)
    ensures
        decimal(left) == decimal(right) <==> left == right,
{
    if decimal(left) == decimal(right) {
        if left < 0 {
            lemma_digits_len(-left);
        } else {
            lemma_digits_len(left);
        }
        if right < 0 {
            lemma_digits_len(-right);
        } else {
            lemma_digits_len(right);
        }
        assert(decimal(left)[0] == decimal(right)[0]);
        if left < 0 && right < 0 {
            assert(decimal(left).skip(1) =~= digits(-left));
            assert(decimal(right).skip(1) =~= digits(-right));
            lemma_digits_differ(-left, -right);
        } else if left >= 0 && right >= 0 {
            lemma_digits_differ(left, right);
        }
    }
}

/// A text is found in another exactly where that one can be put together with it in
/// the middle.
pub proof fn law_parts_are_found(front: Seq<char>, part: Seq<char>, back: Seq<char>)
    ensures
        contains_text(front + part + back, part),
        stands_at(front + part + back, part, front.len() as int),
        stands_at(part + back, part, 0),
{
    let all = front + part + back;
    let at = front.len() as int;
    assert(all.subrange(at, at + part.len()) =~= part);
    assert(stands_at(all, part, at));
    assert((part + back).subrange(0, part.len() as int) =~= part);
}

/// What is found stands in the text, character for character.
pub proof fn law_found_parts_are_there(text: Seq<char>, part: Seq<char>)
    ensures
        contains_text(text, part) ==> exists|front: Seq<char>, back: Seq<char>| text == #[trigger] (
        front + part + back),
        stands_at(text, part, 0) ==> exists|back: Seq<char>| text == #[trigger] (part + back),
{
    if contains_text(text, part) {
        let at = choose|at: int| stands_at(text, part, at);
        let (front, back) = (text.take(at), text.skip(at + part.len()));
        assert forall|i: int| at <= i < at + part.len() implies text[i] == part[i - at] by {
            assert(text.subrange(at, at + part.len())[i - at] == text[i]);
        }
        assert(text =~= front + part + back);
    }
    if stands_at(text, part, 0) {
        let back = text.skip(part.len() as int);
        assert forall|i: int| 0 <= i < part.len() implies text[i] == part[i] by {
            assert(text.subrange(0, part.len() as int)[i] == text[i]);
        }
        assert(text =~= part + back);
    }
}

/// A length of time is written as its minutes, a colon, and its seconds with two
/// digits.
pub proof fn law_durations_are_minutes_and_seconds(minutes: int, seconds: int)
    requires
        0 <= minutes,
        0 <= seconds < 60,
    ensures
        minutes_text(60 * minutes + seconds) == digits(minutes) + ":"@ + (if seconds < 10 {
            seq!['0'] + digits(seconds)
        } else {
            digits(seconds)
        }),
{
    assert((60 * minutes + seconds) / 60 == minutes);
    assert((60 * minutes + seconds) % 60 == seconds);
    if seconds < 10 {
        law_numbers_are_written_in_decimal(0, seconds);
    } else {
        law_numbers_are_written_in_decimal(seconds / 10, seconds % 10);
    }
}

/// Spaces, tabs and ends of lines are white space; what can be seen in ASCII is not.
pub proof fn law_visible_characters_are_no_white_space(ch: char)
    ensures
        ch == ' ' || ch == '\t' || ch == '\n' || ch == '\r' ==> white_space(ch),
        '!' <= ch <= '~' ==> !white_space(ch),
        ch as u32 == 0xa0 || ch as u32 == 0x2003 || ch as u32 == 0x2028 || ch as u32 == 0x3000
            ==> white_space(ch),
        ch as u32 > 0x3000 ==> !white_space(ch),
{
}

} // verus!
