//! The round picture of a chat: a photo, or initials on one of seven colors.

use vstd::prelude::*;

use crate::text::{characters, trim, trimmed, uppercase, uppercased, white_space};

verus! {

/// Which of the seven colors an id gets.
pub fn color_index(id: i64) -> (index: usize)
    ensures
        index == id as int % 7,
        index < 7,
{
    id.checked_rem_euclid(7).unwrap() as usize
}

/// A quotient that is cut off towards zero.
pub open spec fn cut_quotient(dividend: int, divisor: int) -> int {
    if dividend >= 0 {
        dividend / divisor
    } else {
        -((-dividend) / divisor)
    }
}

/// How long the longer edge becomes when the shorter one becomes `target`, rounded
/// up.
pub open spec fn scaled_edge(longer: int, shorter: int, target: int) -> int {
    cut_quotient(longer * target + shorter - 1, shorter)
}

fn scale_edge(longer: i32, shorter: i32, target: i32) -> (edge: i32)
    requires
        1 <= shorter <= longer,
    ensures
        edge == scaled_edge(longer as int, shorter as int, target as int) as i32,
{
    assert(-0x4000_0000_0000_0000 <= longer * target <= 0x4000_0000_0000_0000) by (nonlinear_arith)
        requires
            1 <= longer <= 0x7fff_ffff,
            -0x8000_0000 <= target <= 0x7fff_ffff,
    ;
    let sum: i64 = (longer as i64) * (target as i64) + (shorter as i64) - 1;
    let ghost whole = cut_quotient(sum as int, shorter as int);
    assert(-0x7fff_ffff_ffff_ffff <= whole <= 0x7fff_ffff_ffff_ffff) by (nonlinear_arith)
        requires
            whole == cut_quotient(sum as int, shorter as int),
            -0x7fff_ffff_ffff_ffff <= sum <= 0x7fff_ffff_ffff_ffff,
            shorter >= 1,
    ;
    let quotient: i64 = sum.checked_div(shorter as i64).unwrap();
    #[verifier::truncate] (quotient as i32)
}

/// The size of a picture whose shorter edge becomes `target`.
pub fn cover_dimensions(width: i32, height: i32, target: i32) -> (size: (i32, i32))
    ensures
        ({
            let w = if width < 1 { 1int } else { width as int };
            let h = if height < 1 { 1int } else { height as int };
            size == if w >= h {
                (scaled_edge(w, h, target as int) as i32, target)
            } else {
                (target, scaled_edge(h, w, target as int) as i32)
            }
        }),
{
    let width: i32 = if width < 1 { 1 } else { width };
    let height: i32 = if height < 1 { 1 } else { height };
    if width >= height {
        (scale_edge(width, height, target), target)
    } else {
        (target, scale_edge(height, width, target))
    }
}

/// A picture that is scaled to cover a square does so: the shorter edge is the
/// square's, and the longer one is at least as long.
pub proof fn law_cover_covers(longer: int, shorter: int, target: int)
    requires
        1 <= shorter <= longer,
        1 <= target,
    ensures
        scaled_edge(longer, shorter, target) >= target,
{
    assert(longer * target + shorter - 1 >= shorter * target) by (nonlinear_arith)
        requires
            1 <= shorter <= longer,
            1 <= target,
    ;
    assert((longer * target + shorter - 1) / shorter >= target) by (nonlinear_arith)
        requires
            longer * target + shorter - 1 >= shorter * target,
            shorter >= 1,
            target >= 1,
    ;
}

/// The square that is cut out of the middle of a picture.
#[derive(Debug, Clone, Copy, PartialEq, Eq, Structural)]
pub struct Crop {
    pub x: i32,
    pub y: i32,
    pub size: i32,
}

/// The largest square in the middle of a picture that is not larger than `target`.
pub fn center_crop(width: i32, height: i32, target: i32) -> (crop: Crop)
    requires
        1 <= width,
        1 <= height,
    ensures
        crop.size == (if target <= width && target <= height {
            if target < 1 { 1 } else { target }
        } else if width <= height {
            width
        } else {
            height
        }),
        crop.x == (width - crop.size) / 2,
        crop.y == (height - crop.size) / 2,
        0 <= crop.x,
        0 <= crop.y,
        crop.x + crop.size <= width,
        crop.y + crop.size <= height,
{
    let mut size: i32 = target;
    if width < size {
        size = width;
    }
    if height < size {
        size = height;
    }
    if size < 1 {
        size = 1;
    }
    Crop { x: (width - size) / 2, y: (height - size) / 2, size }
}

/// How large a photo is decoded: the avatar's size on a screen of this scale.
pub fn photo_target(size: i32, scale: i32) -> (target: i32)
    ensures
        target == (if size * scale > i32::MAX {
            i32::MAX as int
        } else if size * scale < 1 {
            1
        } else {
            size * scale
        }),
{
    assert(-0x4000_0000_0000_0000 <= size * scale <= 0x4000_0000_0000_0000) by (nonlinear_arith)
        requires
            -0x8000_0000 <= size <= 0x7fff_ffff,
            -0x8000_0000 <= scale <= 0x7fff_ffff,
    ;
    let product: i64 = (size as i64) * (scale as i64);
    if product > 0x7fff_ffff {
        i32::MAX
    } else if product < 1 {
        1
    } else {
        product as i32
    }
}

// ---------------------------------------------------------------- initials

/// Where the last white space of a text stands, or -1.
pub open spec fn last_gap(text: Seq<char>) -> int
    decreases text.len(),
{
    if text.len() == 0 {
        -1
    } else if white_space(text.last()) {
        text.len() - 1
    } else {
        last_gap(text.drop_last())
    }
}

/// The initials of a name: the first two letters of a single word, the first
/// letters of the first and the last of several words, and a question mark where
/// there is no word.
pub open spec fn initials_of(name: Seq<char>) -> Seq<char> {
    let words = trimmed(name);
    if words.len() == 0 {
        "?"@
    } else if last_gap(words) < 0 {
        uppercased(words[0]) + (if words.len() > 1 {
            uppercased(words[1])
        } else {
            Seq::empty()
        })
    } else {
        uppercased(words[0]) + uppercased(words[last_gap(words) + 1])
    }
}

proof fn lemma_last_gap(text: Seq<char>)
    ensures
        -1 <= last_gap(text) < text.len(),
        last_gap(text) >= 0 ==> white_space(text[last_gap(text)]),
    decreases text.len(),
{
    if text.len() > 0 && !white_space(text.last()) {
        lemma_last_gap(text.drop_last());
    }
}

/// What is left of a text without trailing white space does not end in any.
proof fn lemma_ends_in_word(text: Seq<char>)
    ensures
        crate::text::without_trailing_space(text).len() > 0 ==> !white_space(
            crate::text::without_trailing_space(text).last(),
        ),
    decreases text.len(),
{
    if text.len() > 0 && white_space(text.last()) {
        lemma_ends_in_word(text.drop_last());
    }
}

pub fn initials(name: &str) -> (letters: String)
    ensures
        letters@ == initials_of(name@),
{
    let words = trim(name);
    let chars = characters(&words);
    proof {
        lemma_ends_in_word(crate::text::without_leading_space(name@));
    }
    if chars.len() == 0 {
        return "?".to_owned();
    }
    let mut letters = uppercase(chars[0]);
    let mut end: usize = chars.len();
    let ghost all = chars@;
    assert(all.take(all.len() as int) =~= all);
    while end > 0 && !chars[end - 1].is_whitespace()
        invariant
            end <= chars@.len(),
            all == chars@,
            last_gap(all.take(end as int)) == last_gap(all),
        decreases end,
    {
        assert(all.take(end as int).drop_last() =~= all.take(end - 1));
        assert(all.take(end as int).last() == all[end - 1]);
        end -= 1;
    }
    proof {
        lemma_last_gap(all);
        if end > 0 {
            assert(all.take(end as int).last() == all[end - 1]);
        } else {
            assert(all.take(0) =~= Seq::<char>::empty());
        }
    }
    assert(last_gap(all) == end - 1);
    if end == 0 {
        if chars.len() > 1 {
            let second = uppercase(chars[1]);
            letters.push_str(&second);
        } else {
            assert(letters@ =~= letters@ + Seq::<char>::empty());
        }
    } else {
        assert(end < all.len()) by {
            assert(!white_space(all.last()));
        }
        let last = uppercase(chars[end]);
        letters.push_str(&last);
    }
    letters
}

/// The avatar of one place on the screen.
pub struct Avatar {
    pub size: i32,
    pub key: i64,
    pub generation: u64,
    pub letters: String,
    pub color: usize,
    pub shows_photo: bool,
}

impl Avatar {
    /// An avatar of some size that nobody's initials were put into yet.
    pub open spec fn unbound(self, size: i32) -> bool {
        &&& self.letters@.len() == 0
        &&& self == (Avatar {
            size,
            key: 0,
            generation: 0,
            letters: self.letters,
            color: 0,
            shows_photo: false,
        })
    }

    /// The avatar once it shows the initials of a chat.
    pub open spec fn bound(self, before: Avatar, id: i64, name: Seq<char>) -> bool {
        &&& self.letters@ == initials_of(name)
        &&& self.color == id as int % 7
        &&& self == (Avatar {
            size: before.size,
            key: id,
            generation: before.generation.wrapping_add(1),
            letters: self.letters,
            color: self.color,
            shows_photo: false,
        })
    }

    pub fn new(size: i32) -> (avatar: Avatar)
        ensures
            avatar.unbound(size),
    {
        Avatar {
            size,
            key: 0,
            generation: 0,
            letters: String::new(),
            color: 0,
            shows_photo: false,
        }
    }

    /// Shows a chat's initials, and returns the number under which its photo is to
    /// be loaded where it has one.
    pub fn bind(&mut self, id: i64, name: &str, has_photo: bool) -> (load: Option<u64>)
        ensures
            final(self).bound(*old(self), id, name@),
            load == (if has_photo { Some(final(self).generation) } else { None }),
    {
        self.generation = self.generation.wrapping_add(1);
        self.key = id;
        self.letters = initials(name);
        self.color = color_index(id);
        self.shows_photo = false;
        if has_photo {
            Some(self.generation)
        } else {
            None
        }
    }

    /// Shows a photo that was loaded, unless something else is bound by now.
    pub fn photo_loaded(&mut self, id: i64, generation: u64) -> (shown: bool)
        ensures
            shown == (old(self).key == id && old(self).generation == generation),
            *final(self) == (Avatar { shows_photo: old(self).shows_photo || shown, ..*old(self) }),
    {
        if self.key != id || self.generation != generation {
            return false;
        }
        self.shows_photo = true;
        true
    }

    pub fn set_size(&mut self, size: i32)
        ensures
            *final(self) == (Avatar { size, ..*old(self) }),
    {
        self.size = size;
    }

    pub fn key(&self) -> (key: i64)
        ensures
            key == self.key,
    {
        self.key
    }
}

} // verus!
