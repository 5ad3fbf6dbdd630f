//! Keyboard shortcuts.

use vstd::prelude::*;
use vstd::utf8::{
    decode_utf8, encode_scalar, encode_utf8, encode_utf8_decode_utf8, encode_utf8_valid_utf8,
    is_char_boundary, is_char_boundary_iff_not_is_continuation_byte,
    is_char_boundary_start_end_of_seq, valid_utf8_split,
};

use crate::text::{characters, same_text, text_between};

verus! {

/// The modifiers that a shortcut may have: Shift, Control, Alt, Super, Hyper and
/// Meta.
pub const MOD_MASK: u32 = 0x1c00_000d;

/// What is put around a selection.
pub open spec fn markers_of(action: Seq<char>) -> Option<(Seq<char>, Seq<char>)> {
    if action == "bold"@ {
        Some(("**"@, "**"@))
    } else if action == "italic"@ {
        Some(("__"@, "__"@))
    } else if action == "strike"@ {
        Some(("~~"@, "~~"@))
    } else if action == "mono"@ {
        Some(("`"@, "`"@))
    } else if action == "spoiler"@ {
        Some(("||"@, "||"@))
    } else if action == "link"@ {
        Some(("["@, "](url)"@))
    } else {
        None
    }
}

/// What an action of the composer puts around a selection. Underlining has no markers.
pub fn markers(action: &str) -> (pair: Option<(&'static str, &'static str)>)
    ensures
        match pair {
            Some((open, close)) => markers_of(action@) == Some((open@, close@)),
            None => markers_of(action@) is None,
        },
        action@ == "bold"@ ==> (pair matches Some((open, close)) && open@ == "**"@ && close@ == "**"@),
        action@ == "italic"@ ==> (pair matches Some((open, close)) && open@ == "__"@ && close@ == "__"@),
        action@ == "strike"@ ==> (pair matches Some((open, close)) && open@ == "~~"@ && close@ == "~~"@),
        action@ == "mono"@ ==> (pair matches Some((open, close)) && open@ == "`"@ && close@ == "`"@),
        action@ == "spoiler"@ ==> (pair matches Some((open, close)) && open@ == "||"@ && close@ == "||"@),
        action@ == "link"@ ==> (pair matches Some((open, close)) && open@ == "["@ && close@ == "](url)"@),
{
    proof {
        law_actions_have_their_markers(action@);
    }
    if same_text(action, "bold") {
        Some(("**", "**"))
    } else if same_text(action, "italic") {
        Some(("__", "__"))
    } else if same_text(action, "strike") {
        Some(("~~", "~~"))
    } else if same_text(action, "mono") {
        Some(("`", "`"))
    } else if same_text(action, "spoiler") {
        Some(("||", "||"))
    } else if same_text(action, "link") {
        Some(("[", "](url)"))
    } else {
        None
    }
}

/// Bold text stands between two stars, italic text between two underscores, struck
/// text between two tildes, code between backticks and hidden text between two bars.
/// A link is put in brackets, before its address in parentheses. Nothing else has
/// markers.
pub proof fn law_actions_have_their_markers(action: Seq<char>)
    ensures
        action == "bold"@ ==> markers_of(action) == Some(("**"@, "**"@)),
        action == "italic"@ ==> markers_of(action) == Some(("__"@, "__"@)),
        action == "strike"@ ==> markers_of(action) == Some(("~~"@, "~~"@)),
        action == "mono"@ ==> markers_of(action) == Some(("`"@, "`"@)),
        action == "spoiler"@ ==> markers_of(action) == Some(("||"@, "||"@)),
        action == "link"@ ==> markers_of(action) == Some(("["@, "](url)"@)),
        action != "bold"@ && action != "italic"@ && action != "strike"@ && action != "mono"@ && action
            != "spoiler"@ && action != "link"@ ==> markers_of(action) is None,
{
    reveal_strlit("bold");
    reveal_strlit("italic");
    reveal_strlit("strike");
    reveal_strlit("mono");
    reveal_strlit("spoiler");
    reveal_strlit("link");
    assert("bold"@[0] == 'b');
    assert("italic"@[0] == 'i');
    assert("strike"@[1] == 't');
    assert("mono"@[0] == 'm');
    assert("spoiler"@[1] == 'p');
    assert("link"@[0] == 'l');
}

/// The last place up to `at` between two characters.
pub open spec fn snapped(bytes: Seq<u8>, at: int) -> int
    decreases at,
{
    if at <= 0 || is_char_boundary(bytes, at) {
        at
    } else {
        snapped(bytes, at - 1)
    }
}

/// Where a selection begins: before the earlier of its ends, and between two
/// characters.
pub open spec fn selection_start(bytes: Seq<u8>, start: int, end: int) -> int {
    let low = if start < end { start } else { end };
    snapped(bytes, if low < bytes.len() { low } else { bytes.len() as int })
}

/// Where a selection ends.
pub open spec fn selection_end(bytes: Seq<u8>, start: int, end: int) -> int {
    let high = if start < end { end } else { start };
    snapped(bytes, if high < bytes.len() { high } else { bytes.len() as int })
}

proof fn lemma_snapped(bytes: Seq<u8>, at: int)
    requires
        vstd::utf8::valid_utf8(bytes),
        0 <= at <= bytes.len(),
    ensures
        0 <= snapped(bytes, at) <= at,
        is_char_boundary(bytes, snapped(bytes, at)),
        forall|place: int|
            snapped(bytes, at) < place <= at ==> !is_char_boundary(bytes, place),
    decreases at,
{
    is_char_boundary_start_end_of_seq(bytes);
    if at > 0 && !is_char_boundary(bytes, at) {
        lemma_snapped(bytes, at - 1);
    }
}

fn snap(text: &str, at: usize) -> (place: usize)
    requires
        at <= encode_utf8(text@).len(),
    ensures
        place == snapped(encode_utf8(text@), at as int),
        place <= at,
        is_char_boundary(encode_utf8(text@), place as int),
{
    let ghost bytes = encode_utf8(text@);
    proof {
        encode_utf8_valid_utf8(text@);
        lemma_snapped(bytes, at as int);
    }
    let mut place: usize = at;
    while place > 0 && !text.is_char_boundary(place)
        invariant
            place <= at,
            bytes == encode_utf8(text@),
            snapped(bytes, place as int) == snapped(bytes, at as int),
        decreases place,
    {
        place -= 1;
    }
    place
}

/// A text with markers around its selection.
pub open spec fn wrapped(
    text: Seq<char>,
    start: int,
    end: int,
    open: Seq<char>,
    close: Seq<char>,
) -> Seq<char> {
    let bytes = encode_utf8(text);
    let low = selection_start(bytes, start, end);
    let high = selection_end(bytes, start, end);
    decode_utf8(bytes.subrange(0, low)) + open + decode_utf8(bytes.subrange(low, high)) + close
        + decode_utf8(bytes.subrange(high, bytes.len() as int))
}

/// Puts markers around the bytes from `start` to `end` of a text. Returns the new text
/// and the place of the cursor: behind the closing marker, or between the two where
/// nothing was selected.
pub fn wrap_markers(text: &str, start: usize, end: usize, open: &str, close: &str) -> (result: (
    String,
    usize,
))
    requires
        encode_utf8(text@).len() + encode_utf8(open@).len() + encode_utf8(close@).len()
            <= usize::MAX,
    ensures
        result.0@ == wrapped(text@, start as int, end as int, open@, close@),
        result.1 == ({
            let bytes = encode_utf8(text@);
            let low = selection_start(bytes, start as int, end as int);
            let high = selection_end(bytes, start as int, end as int);
            if low == high {
                low + encode_utf8(open@).len()
            } else {
                high + encode_utf8(open@).len() + encode_utf8(close@).len()
            }
        }),
{
    let ghost bytes = encode_utf8(text@);
    proof {
        encode_utf8_valid_utf8(text@);
    }
    let len: usize = text.as_bytes().len();
    let low: usize = if start < end { start } else { end };
    let high: usize = if start < end { end } else { start };
    let low: usize = if low < len { low } else { len };
    let high: usize = if high < len { high } else { len };
    let lo = snap(text, low);
    let hi = snap(text, high);
    proof {
        lemma_snapped(bytes, high as int);
        assert(lo <= hi);
        valid_utf8_split(bytes, hi as int);
    }
    let (front, tail) = text.split_at(hi);
    proof {
        let part = bytes.subrange(0, hi as int);
        assert(encode_utf8(front@) =~= part);
        if lo < hi {
            is_char_boundary_iff_not_is_continuation_byte(bytes, lo as int);
            assert(part[lo as int] == bytes[lo as int]);
            is_char_boundary_iff_not_is_continuation_byte(part, lo as int);
        } else {
            is_char_boundary_start_end_of_seq(part);
        }
    }
    let (head, middle) = front.split_at(lo);
    proof {
        encode_utf8_decode_utf8(head@);
        encode_utf8_decode_utf8(middle@);
        encode_utf8_decode_utf8(tail@);
        assert(bytes.subrange(0, hi as int).subrange(0, lo as int) =~= bytes.subrange(0, lo as int));
        assert(bytes.subrange(0, hi as int).subrange(lo as int, hi as int) =~= bytes.subrange(
            lo as int,
            hi as int,
        ));
    }
    let mut out = String::new();
    out.push_str(head);
    out.push_str(open);
    out.push_str(middle);
    out.push_str(close);
    out.push_str(tail);
    let open_len: usize = open.as_bytes().len();
    let close_len: usize = close.as_bytes().len();
    let cursor: usize = if lo == hi { lo + open_len } else { hi + open_len + close_len };
    assert(out@ =~= wrapped(text@, start as int, end as int, open@, close@));
    (out, cursor)
}

/// Markers change nothing of a text: without them it is what it was.
pub proof fn law_markers_keep_the_text(text: Seq<char>, start: int, end: int)
    requires
        0 <= start,
        0 <= end,
    ensures
        wrapped(text, start, end, Seq::empty(), Seq::empty()) == text,
{
    let bytes = encode_utf8(text);
    encode_utf8_valid_utf8(text);
    let low = if start < end { start } else { end };
    let high = if start < end { end } else { start };
    let low = if low < bytes.len() { low } else { bytes.len() as int };
    let high = if high < bytes.len() { high } else { bytes.len() as int };
    lemma_snapped(bytes, low);
    lemma_snapped(bytes, high);
    let lo = selection_start(bytes, start, end);
    let hi = selection_end(bytes, start, end);
    assert(lo <= hi);
    valid_utf8_split(bytes, hi);
    vstd::utf8::decode_utf8_split(bytes, hi);
    let part = bytes.subrange(0, hi);
    if lo < hi {
        is_char_boundary_iff_not_is_continuation_byte(bytes, lo);
        assert(part[lo] == bytes[lo]);
        is_char_boundary_iff_not_is_continuation_byte(part, lo);
    } else {
        is_char_boundary_start_end_of_seq(part);
    }
    vstd::utf8::decode_utf8_split(part, lo);
    assert(part.subrange(0, lo) =~= bytes.subrange(0, lo));
    assert(part.subrange(lo, part.len() as int) =~= bytes.subrange(lo, hi));
    encode_utf8_decode_utf8(text);
    assert(wrapped(text, start, end, Seq::empty(), Seq::empty()) =~= text);
}

/// How many bytes a character takes.
fn utf8_width(ch: char) -> (width: usize)
    ensures
        width == encode_scalar(ch as u32).len(),
        1 <= width <= 4,
{
    let code: u32 = ch as u32;
    if code <= 0x7f {
        1
    } else if code <= 0x7ff {
        2
    } else if code <= 0xffff {
        3
    } else {
        4
    }
}

proof fn lemma_encode_push(chars: Seq<char>, ch: char)
    ensures
        encode_utf8(chars.push(ch)) == encode_utf8(chars) + encode_scalar(ch as u32),
    decreases chars.len(),
{
    if chars.len() == 0 {
        assert(chars.push(ch).drop_first() =~= Seq::<char>::empty());
        assert(encode_utf8(Seq::<char>::empty()) =~= Seq::<u8>::empty());
        assert(chars.push(ch)[0] == ch);
        assert(encode_utf8(chars.push(ch)) =~= encode_utf8(chars) + encode_scalar(ch as u32));
    } else {
        assert(chars.push(ch).drop_first() =~= chars.drop_first().push(ch));
        lemma_encode_push(chars.drop_first(), ch);
        assert(encode_utf8(chars.push(ch)) =~= encode_utf8(chars) + encode_scalar(ch as u32));
    }
}

proof fn lemma_encode_take(chars: Seq<char>, count: int)
    requires
        0 <= count <= chars.len(),
    ensures
        encode_utf8(chars.take(count)).len() <= encode_utf8(chars).len(),
    decreases chars.len(),
{
    if count == chars.len() {
        assert(chars.take(count) =~= chars);
    } else {
        lemma_encode_take(chars.drop_last(), count);
        assert(chars.drop_last().take(count) =~= chars.take(count));
        assert(chars =~= chars.drop_last().push(chars.last()));
        lemma_encode_push(chars.drop_last(), chars.last());
    }
}

proof fn lemma_encode_sum(front: Seq<char>, back: Seq<char>)
    ensures
        encode_utf8(front + back) == encode_utf8(front) + encode_utf8(back),
        is_char_boundary(encode_utf8(front + back), encode_utf8(front).len() as int),
    decreases front.len(),
{
    let bytes = encode_utf8(front + back);
    if front.len() == 0 {
        assert(front + back =~= back);
        assert(encode_utf8(front) =~= Seq::<u8>::empty());
        assert(bytes =~= encode_utf8(front) + encode_utf8(back));
        encode_utf8_valid_utf8(back);
        is_char_boundary_start_end_of_seq(bytes);
    } else {
        let rest = front.drop_first();
        lemma_encode_sum(rest, back);
        assert((front + back).drop_first() =~= rest + back);
        assert((front + back)[0] == front[0]);
        assert(bytes =~= encode_utf8(front) + encode_utf8(back));
        encode_utf8_valid_utf8(front + back);
        vstd::utf8::encode_utf8_first_scalar(front + back);
        assert(vstd::utf8::pop_first_scalar(bytes) =~= encode_utf8(rest + back));
        assert(is_char_boundary(bytes, encode_utf8(front).len() as int));
    }
}

/// Markers come right before and right after what is selected, whichever end of the
/// selection comes first, and the rest of the text stays where it is.
pub proof fn law_markers_surround_the_selection(
    front: Seq<char>,
    chosen: Seq<char>,
    back: Seq<char>,
    open: Seq<char>,
    close: Seq<char>,
)
    ensures
        ({
            let text = front + chosen + back;
            let start = encode_utf8(front).len() as int;
            let end = start + encode_utf8(chosen).len();
            &&& wrapped(text, start, end, open, close) == front + open + chosen + close + back
            &&& wrapped(text, end, start, open, close) == front + open + chosen + close + back
        }),
{
    let text = front + chosen + back;
    let bytes = encode_utf8(text);
    let start = encode_utf8(front).len() as int;
    let end = start + encode_utf8(chosen).len();
    lemma_encode_sum(front + chosen, back);
    lemma_encode_sum(front, chosen);
    assert(text =~= front + (chosen + back));
    lemma_encode_sum(front, chosen + back);
    assert(bytes.subrange(0, start) =~= encode_utf8(front));
    assert(bytes.subrange(start, end) =~= encode_utf8(chosen));
    assert(bytes.subrange(end, bytes.len() as int) =~= encode_utf8(back));
    encode_utf8_decode_utf8(front);
    encode_utf8_decode_utf8(chosen);
    encode_utf8_decode_utf8(back);
    assert(selection_start(bytes, start, end) == start);
    assert(selection_end(bytes, start, end) == end);
}

proof fn lemma_inside(front: Seq<char>, ch: char, back: Seq<char>, inside: int)
    requires
        0 < inside < encode_scalar(ch as u32).len(),
    ensures
        !is_char_boundary(
            encode_utf8(front + seq![ch] + back),
            encode_utf8(front).len() + inside,
        ),
    decreases front.len(),
{
    let text = front + seq![ch] + back;
    let bytes = encode_utf8(text);
    encode_utf8_valid_utf8(text);
    vstd::utf8::encode_utf8_first_scalar(text);
    reveal_with_fuel(is_char_boundary, 2);
    assert(vstd::utf8::pop_first_scalar(bytes) =~= encode_utf8(text.drop_first()));
    if front.len() == 0 {
        assert(text[0] == ch);
        assert(encode_utf8(front).len() == 0);
        encode_utf8_valid_utf8(text.drop_first());
    } else {
        let rest = front.drop_first();
        lemma_inside(rest, ch, back, inside);
        assert(text.drop_first() =~= rest + seq![ch] + back);
        assert(text[0] == front[0]);
        assert(encode_utf8(front).len() == encode_scalar(front[0] as u32).len() + encode_utf8(
            rest,
        ).len());
    }
}

proof fn lemma_snaps_back(front: Seq<char>, ch: char, back: Seq<char>, inside: int)
    requires
        0 <= inside < encode_scalar(ch as u32).len(),
    ensures
        snapped(
            encode_utf8(front + seq![ch] + back),
            encode_utf8(front).len() + inside,
        ) == encode_utf8(front).len(),
    decreases inside,
{
    if inside == 0 {
        assert(front + seq![ch] + back =~= front + (seq![ch] + back));
        lemma_encode_sum(front, seq![ch] + back);
    } else {
        lemma_inside(front, ch, back, inside);
        lemma_snaps_back(front, ch, back, inside - 1);
    }
}

/// An end of a selection within a character goes back to before it, and one behind the
/// text goes to its end.
pub proof fn law_selections_never_split_characters(
    front: Seq<char>,
    ch: char,
    back: Seq<char>,
    inside: int,
    beyond: int,
    open: Seq<char>,
    close: Seq<char>,
)
    requires
        0 <= inside < encode_scalar(ch as u32).len(),
        beyond >= encode_utf8(front + seq![ch] + back).len(),
    ensures
        ({
            let text = front + seq![ch] + back;
            let at = encode_utf8(front).len() + inside;
            &&& wrapped(text, at, at, open, close) == front + open + close + seq![ch] + back
            &&& wrapped(text, beyond, beyond, open, close) == text + open + close
        }),
{
    let text = front + seq![ch] + back;
    let bytes = encode_utf8(text);
    let start = encode_utf8(front).len() as int;
    let none = Seq::<char>::empty();
    lemma_snaps_back(front, ch, back, inside);
    lemma_encode_sum(front + seq![ch], back);
    lemma_encode_sum(front, seq![ch]);
    lemma_encode_one(ch);
    assert(text =~= front + (seq![ch] + back));
    lemma_encode_sum(front, seq![ch] + back);
    assert(selection_start(bytes, start + inside, start + inside) == start);
    assert(selection_end(bytes, start + inside, start + inside) == start);
    assert(bytes.subrange(0, start) =~= encode_utf8(front));
    assert(bytes.subrange(start, start) =~= encode_utf8(none));
    assert(bytes.subrange(start, bytes.len() as int) =~= encode_utf8(seq![ch] + back));
    encode_utf8_decode_utf8(front);
    encode_utf8_decode_utf8(none);
    encode_utf8_decode_utf8(seq![ch] + back);
    assert(wrapped(text, start + inside, start + inside, open, close) =~= front + open + close + seq![
        ch,
    ] + back);
    let end = bytes.len() as int;
    encode_utf8_valid_utf8(text);
    is_char_boundary_start_end_of_seq(bytes);
    assert(selection_start(bytes, beyond, beyond) == end);
    assert(selection_end(bytes, beyond, beyond) == end);
    assert(bytes.subrange(0, end) =~= bytes);
    assert(bytes.subrange(end, end) =~= encode_utf8(none));
    encode_utf8_decode_utf8(text);
    assert(wrapped(text, beyond, beyond, open, close) =~= text + open + close);
}

proof fn lemma_encode_one(ch: char)
    ensures
        encode_utf8(seq![ch]) == encode_scalar(ch as u32),
{
    reveal_with_fuel(encode_utf8, 2);
    assert(seq![ch].drop_first() =~= Seq::<char>::empty());
    assert(encode_utf8(seq![ch]) =~= encode_scalar(ch as u32));
}

/// An offset goes past as many characters, but not past the end of the text.
pub proof fn law_offsets_stay_in_the_text(text: Seq<char>, offset: int)
    ensures
        0 <= offset <= text.len() ==> chars_before(text, offset) == offset,
        offset < 0 ==> chars_before(text, offset) == 0,
        offset > text.len() ==> chars_before(text, offset) == text.len(),
{
}

/// How many characters of a text an offset goes past. A negative one goes past none.
pub open spec fn chars_before(text: Seq<char>, offset: int) -> int {
    if offset < 0 {
        0
    } else if offset > text.len() {
        text.len() as int
    } else {
        offset
    }
}

/// How many bytes stand before the character at an offset.
pub fn char_offset_to_byte(text: &str, offset: i32) -> (byte: usize)
    ensures
        byte == encode_utf8(text@.take(chars_before(text@, offset as int))).len(),
{
    let total: usize = text.as_bytes().len();
    let chars = characters(text);
    let wanted: usize = if offset < 0 { 0 } else { offset as usize };
    let mut byte: usize = 0;
    let mut i: usize = 0;
    assert(text@.take(0) =~= Seq::<char>::empty());
    while i < chars.len() && i < wanted
        invariant
            i <= chars@.len(),
            i <= wanted,
            chars@ == text@,
            total == encode_utf8(text@).len(),
            byte == encode_utf8(text@.take(i as int)).len(),
        decreases chars@.len() - i,
    {
        proof {
            assert(text@.take(i + 1) =~= text@.take(i as int).push(text@[i as int]));
            lemma_encode_push(text@.take(i as int), text@[i as int]);
            lemma_encode_take(text@, i + 1);
        }
        byte = byte + utf8_width(chars[i]);
        i += 1;
    }
    byte
}

/// A selection in the composer with markers around it.
#[derive(Debug, PartialEq, Eq)]
pub struct Wrapped {
    pub text: String,
    /// What takes the place of the selection.
    pub replacement: String,
    /// How many characters stand before the cursor.
    pub cursor: usize,
}

/// Puts markers around the characters from `start` up to `end` of a text.
pub fn wrap_selection(text: &str, start: usize, end: usize, open: &str, close: &str) -> (result:
    Wrapped)
    requires
        start <= end <= text@.len(),
        end + open@.len() + close@.len() <= usize::MAX,
    ensures
        result.replacement@ == open@ + text@.subrange(start as int, end as int) + close@,
        result.text@ == text@.take(start as int) + result.replacement@ + text@.skip(end as int),
        result.cursor == (if start == end {
            start + open@.len()
        } else {
            end + open@.len() + close@.len()
        }),
{
    let chars = characters(text);
    let selected = text_between(&chars, start, end);
    let mut replacement = open.to_owned();
    replacement.push_str(&selected);
    replacement.push_str(close);
    let mut all = text_between(&chars, 0, start);
    all.push_str(&replacement);
    let rest = text_between(&chars, end, chars.len());
    all.push_str(&rest);
    let open_len: usize = open.unicode_len();
    let close_len: usize = close.unicode_len();
    let cursor: usize = if start == end { start + open_len } else { end + open_len + close_len };
    assert(text@.take(start as int) =~= text@.subrange(0, start as int));
    assert(text@.skip(end as int) =~= text@.subrange(end as int, text@.len() as int));
    Wrapped { text: all, replacement, cursor }
}

/// The form in which two shortcuts are compared: the key, and those modifiers that
/// count. `key` is that of the lower-case letter.
pub fn canonical_form(parsed: Option<(u32, u32)>) -> (form: Option<(u32, u32)>)
    ensures
        form == (match parsed {
            Some((key, mods)) => Some((key, mods & MOD_MASK)),
            None => None,
        }),
{
    match parsed {
        Some((key, mods)) => Some((key, mods & MOD_MASK)),
        None => None,
    }
}

/// Whether the shortcuts of two actions are in each other's way.
pub open spec fn in_conflict(
    rows: Seq<(String, String, Option<(u32, u32)>)>,
    i: int,
    j: int,
) -> bool {
    rows[i].2 is Some && rows[i].1@ == rows[j].1@ && rows[j].2 == rows[i].2
}

/// The conflicts of the action at `i` with those behind it, before `end`.
pub open spec fn conflicts_at(
    rows: Seq<(String, String, Option<(u32, u32)>)>,
    i: int,
    end: int,
) -> Seq<(usize, usize)>
    decreases end - i,
{
    if end <= i + 1 {
        Seq::empty()
    } else {
        let earlier = conflicts_at(rows, i, end - 1);
        if in_conflict(rows, i, end - 1) {
            earlier.push((i as usize, (end - 1) as usize))
        } else {
            earlier
        }
    }
}

/// The conflicts of the first `count` actions with those behind each.
pub open spec fn conflicts_of(
    rows: Seq<(String, String, Option<(u32, u32)>)>,
    count: int,
) -> Seq<(usize, usize)>
    decreases count,
{
    if count <= 0 {
        Seq::empty()
    } else {
        conflicts_of(rows, count - 1) + conflicts_at(rows, count - 1, rows.len() as int)
    }
}

fn same_form(left: Option<(u32, u32)>, right: (u32, u32)) -> (same: bool)
    ensures
        same == (left == Some(right)),
{
    match left {
        Some((key, mods)) => key == right.0 && mods == right.1,
        None => false,
    }
}

/// Which actions of one group have the same shortcut, by their places, the earlier
/// first. Actions without a shortcut are in nobody's way.
pub fn find_conflicts(rows: &[(String, String, Option<(u32, u32)>)]) -> (pairs: Vec<
    (usize, usize),
>)
    ensures
        pairs@ == conflicts_of(rows@, rows@.len() as int),
{
    let mut pairs: Vec<(usize, usize)> = Vec::new();
    let count: usize = rows.len();
    let mut i: usize = 0;
    while i < count
        invariant
            i <= count,
            count == rows@.len(),
            pairs@ == conflicts_of(rows@, i as int),
        decreases count - i,
    {
        let ghost before = pairs@;
        assert(before + Seq::<(usize, usize)>::empty() =~= before);
        match rows[i].2 {
            None => {
                proof {
                    lemma_unbound(rows@, i as int, count as int);
                }
            },
            Some(form) => {
                let mut j: usize = i + 1;
                while j < count
                    invariant
                        i < j <= count,
                        count == rows@.len(),
                        rows@[i as int].2 == Some(form),
                        pairs@ == before + conflicts_at(rows@, i as int, j as int),
                    decreases count - j,
                {
                    let ghost now = conflicts_at(rows@, i as int, j as int);
                    if same_text(rows[i].1.as_str(), rows[j].1.as_str()) && same_form(
                        rows[j].2,
                        form,
                    ) {
                        pairs.push((i, j));
                        assert(pairs@ =~= before + now.push((i, j)));
                    }
                    j += 1;
                }
            },
        }
        i += 1;
    }
    pairs
}

proof fn lemma_unbound(rows: Seq<(String, String, Option<(u32, u32)>)>, i: int, end: int)
    requires
        rows[i].2 is None,
    ensures
        conflicts_at(rows, i, end) == Seq::<(usize, usize)>::empty(),
    decreases end - i,
{
    if end > i + 1 {
        lemma_unbound(rows, i, end - 1);
    }
}

proof fn lemma_conflicts_at(
    rows: Seq<(String, String, Option<(u32, u32)>)>,
    i: int,
    end: int,
    a: usize,
    b: usize,
)
    requires
        0 <= i < rows.len() <= usize::MAX,
        end <= rows.len(),
    ensures
        conflicts_at(rows, i, end).contains((a, b)) <==> a == i && i < b < end && in_conflict(
            rows,
            i,
            b as int,
        ),
    decreases end - i,
{
    if end > i + 1 {
        lemma_conflicts_at(rows, i, end - 1, a, b);
        let earlier = conflicts_at(rows, i, end - 1);
        let all = conflicts_at(rows, i, end);
        let last = (i as usize, (end - 1) as usize);
        if in_conflict(rows, i, end - 1) {
            assert(all == earlier.push(last));
            if all.contains((a, b)) {
                let p = all.index_of((a, b));
                if p < earlier.len() {
                    assert(earlier[p] == (a, b));
                }
            }
            if earlier.contains((a, b)) {
                assert(all[earlier.index_of((a, b))] == (a, b));
            }
            assert(all[earlier.len() as int] == last);
        }
    }
}

/// Two actions are in conflict, as the list of conflicts has it, exactly where they
/// stand in one group and have the same shortcut.
pub proof fn law_conflicts_are_complete(
    rows: Seq<(String, String, Option<(u32, u32)>)>,
    count: int,
    a: usize,
    b: usize,
)
    requires
        0 <= count <= rows.len() <= usize::MAX,
    ensures
        conflicts_of(rows, count).contains((a, b)) <==> a < count && a < b < rows.len()
            && in_conflict(rows, a as int, b as int),
    decreases count,
{
    if count > 0 {
        law_conflicts_are_complete(rows, count - 1, a, b);
        lemma_conflicts_at(rows, count - 1, rows.len() as int, a, b);
        let earlier = conflicts_of(rows, count - 1);
        let here = conflicts_at(rows, count - 1, rows.len() as int);
        let all = earlier + here;
        if all.contains((a, b)) {
            let p = all.index_of((a, b));
            if p < earlier.len() {
                assert(earlier[p] == (a, b));
            } else {
                assert(here[p - earlier.len()] == (a, b));
            }
        }
        if earlier.contains((a, b)) {
            assert(all[earlier.index_of((a, b))] == (a, b));
        }
        if here.contains((a, b)) {
            assert(all[earlier.len() + here.index_of((a, b))] == (a, b));
        }
    }
}

/// Two actions are in each other's way when they have one shortcut in one place.
pub proof fn law_conflicts_share_a_shortcut(
    rows: Seq<(String, String, Option<(u32, u32)>)>,
    i: int,
    j: int,
)
    ensures
        in_conflict(rows, i, j) <==> rows[i].1@ == rows[j].1@ && rows[i].2 is Some && rows[j].2
            is Some && rows[i].2->0 == rows[j].2->0,
        in_conflict(rows, i, j) == in_conflict(rows, j, i),
{
}

/// Whether a key is only a modifier or a lock. Such a key is no shortcut.
pub open spec fn is_modifier(key: u32) -> bool {
    0xffe1 <= key <= 0xffee || key == 0xfe03 || key == 0xff7f || key == 0xff14
}

/// Shift, Control, Caps Lock, Meta, Alt, Super and Hyper of both sides are
/// modifiers, and so are the shift of the third level and the locks of the number
/// pad and of scrolling. Letters, digits and the enter key are not.
pub proof fn law_modifiers_are_no_shortcuts(key: u32)
    ensures
        key == 0xffe1 || key == 0xffe2 || key == 0xffe3 || key == 0xffe4 || key == 0xffe5 || key
            == 0xffe9 || key == 0xffea || key == 0xffeb || key == 0xffee || key == 0xfe03 || key
            == 0xff7f || key == 0xff14 ==> is_modifier(key),
        key < 0xfe03 ==> !is_modifier(key),
        0xff0d <= key < 0xff14 || 0xff14 < key < 0xff7f || 0xffbe <= key < 0xffe1
            || key > 0xffee ==> !is_modifier(key),
{
}

pub fn is_modifier_only(key: u32) -> (answer: bool)
    ensures
        answer == is_modifier(key),
{
    (0xffe1 <= key && key <= 0xffee) || key == 0xfe03 || key == 0xff7f || key == 0xff14
}

/// Which keys send a message.
pub fn submit_accels(send_on_enter: bool) -> (accels: Vec<&'static str>)
    ensures
        accels@.len() == 2,
        accels@[0]@ == (if send_on_enter { "Return"@ } else { "<Control>Return"@ }),
        accels@[1]@ == (if send_on_enter { "KP_Enter"@ } else { "<Control>KP_Enter"@ }),
{
    let mut accels: Vec<&'static str> = Vec::new();
    if send_on_enter {
        accels.push("Return");
        accels.push("KP_Enter");
    } else {
        accels.push("<Control>Return");
        accels.push("<Control>KP_Enter");
    }
    accels
}

/// What a shortcut does. While a new shortcut is typed in, none does anything.
#[derive(Debug, Clone, Copy, PartialEq, Eq, Structural)]
pub enum KeyOutcome {
    /// The key is left to others.
    Proceed,
    /// The shortcut's action is done.
    Act,
}

pub fn shortcut_pressed(capturing: bool) -> (outcome: KeyOutcome)
    ensures
        outcome == (if capturing { KeyOutcome::Proceed } else { KeyOutcome::Act }),
{
    if capturing {
        KeyOutcome::Proceed
    } else {
        KeyOutcome::Act
    }
}

/// Of the modifiers, Shift, Control, Alt, Super, Hyper and Meta make a difference; the
/// locks and the buttons of the mouse do not.
pub proof fn law_locks_make_no_difference(mods: u32)
    ensures
        (mods | 2) & MOD_MASK == mods & MOD_MASK,
        (mods | 16) & MOD_MASK == mods & MOD_MASK,
        (mods | 256) & MOD_MASK == mods & MOD_MASK,
        (mods | 1) & MOD_MASK == (mods & MOD_MASK) | 1,
        (mods | 4) & MOD_MASK == (mods & MOD_MASK) | 4,
        (mods | 8) & MOD_MASK == (mods & MOD_MASK) | 8,
        (mods | 0x400_0000) & MOD_MASK == (mods & MOD_MASK) | 0x400_0000,
        (mods | 0x800_0000) & MOD_MASK == (mods & MOD_MASK) | 0x800_0000,
        (mods | 0x1000_0000) & MOD_MASK == (mods & MOD_MASK) | 0x1000_0000,
{
    assert((mods | 2) & 0x1c00_000du32 == mods & 0x1c00_000du32) by (bit_vector);
    assert((mods | 16) & 0x1c00_000du32 == mods & 0x1c00_000du32) by (bit_vector);
    assert((mods | 256) & 0x1c00_000du32 == mods & 0x1c00_000du32) by (bit_vector);
    assert((mods | 1) & 0x1c00_000du32 == (mods & 0x1c00_000du32) | 1) by (bit_vector);
    assert((mods | 4) & 0x1c00_000du32 == (mods & 0x1c00_000du32) | 4) by (bit_vector);
    assert((mods | 8) & 0x1c00_000du32 == (mods & 0x1c00_000du32) | 8) by (bit_vector);
    assert((mods | 0x400_0000) & 0x1c00_000du32 == (mods & 0x1c00_000du32) | 0x400_0000)
        by (bit_vector);
    assert((mods | 0x800_0000) & 0x1c00_000du32 == (mods & 0x1c00_000du32) | 0x800_0000)
        by (bit_vector);
    assert((mods | 0x1000_0000) & 0x1c00_000du32 == (mods & 0x1c00_000du32) | 0x1000_0000)
        by (bit_vector);
}

} // verus!
