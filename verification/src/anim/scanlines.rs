//! The lines over the window, which are drawn once and kept.

use vstd::prelude::*;

verus! {

/// What a drawing of the lines depends on. The scale, the colour and the offset are
/// held as their bits.
#[derive(Debug, Clone, Copy, PartialEq, Eq, Structural)]
pub struct LineKey {
    pub width: i32,
    pub height: i32,
    pub scale: u64,
    pub red: u32,
    pub green: u32,
    pub blue: u32,
    pub alpha: u32,
    pub offset: u32,
}

/// What is to be done where the lines are shown.
#[derive(Debug, Clone, Copy, PartialEq, Eq, Structural)]
pub enum LinePlan {
    /// There is nothing to draw on.
    Nothing,
    /// The lines are drawn as rectangles.
    Rectangles,
    /// The lines are drawn anew, and kept.
    Draw,
    /// What was kept is shown.
    Reuse,
}

/// The lines that are kept.
pub struct Scanlines {
    pub cache: Option<LineKey>,
}

/// Where the lines are: in every third row.
pub fn rows(height: i32) -> (lines: Vec<i32>)
    ensures
        lines@.len() == (if height > 0 { (height + 2) / 3 } else { 0 }),
        forall|i: int| 0 <= i < lines@.len() ==> #[trigger] lines@[i] == i * 3,
{
    let mut lines: Vec<i32> = Vec::new();
    let mut y: i32 = 0;
    while y < height
        invariant
            y == lines@.len() * 3,
            height > 0 ==> y <= height + 2,
            height <= 0 ==> y == 0,
            forall|i: int| 0 <= i < lines@.len() ==> #[trigger] lines@[i] == i * 3,
        decreases height + 3 - y,
    {
        lines.push(y);
        if y > i32::MAX - 3 {
            return lines;
        }
        y += 3;
    }
    lines
}

/// What is to be done where lines are shown.
pub open spec fn line_plan(
    kept: Option<LineKey>,
    key: LineKey,
    draws_rectangles: bool,
) -> LinePlan {
    if key.width <= 0 || key.height <= 0 {
        LinePlan::Nothing
    } else if draws_rectangles {
        LinePlan::Rectangles
    } else if kept == Some(key) {
        LinePlan::Reuse
    } else {
        LinePlan::Draw
    }
}

impl Scanlines {
    pub fn new() -> (lines: Scanlines)
        ensures
            lines.cache is None,
    {
        Scanlines { cache: None }
    }

    /// The lines are no longer to be seen.
    pub fn unmap(&mut self)
        ensures
            final(self).cache is None,
    {
        self.cache = None;
    }

    /// What is to be done where the lines are shown. A renderer that draws rectangles
    /// itself is given them, and nothing is kept for it.
    pub fn snapshot(&mut self, key: LineKey, draws_rectangles: bool) -> (plan: LinePlan)
        ensures
            plan == line_plan(old(self).cache, key, draws_rectangles),
            final(self).cache == (if plan is Rectangles {
                None
            } else {
                old(self).cache
            }),
    {
        if key.width <= 0 || key.height <= 0 {
            return LinePlan::Nothing;
        }
        if draws_rectangles {
            self.cache = None;
            return LinePlan::Rectangles;
        }
        if let Some(kept) = self.cache {
            if kept == key {
                return LinePlan::Reuse;
            }
        }
        LinePlan::Draw
    }

    /// The lines were drawn. Where that failed, what was kept stays, and the lines are
    /// drawn as rectangles.
    pub fn drawn(&mut self, key: LineKey, succeeded: bool) -> (plan: LinePlan)
        ensures
            plan == (if succeeded { LinePlan::Reuse } else { LinePlan::Rectangles }),
            final(self).cache == (if succeeded {
                Some(key)
            } else {
                old(self).cache
            }),
    {
        if succeeded {
            self.cache = Some(key);
            LinePlan::Reuse
        } else {
            LinePlan::Rectangles
        }
    }
}

/// Lines that were drawn are not drawn again as long as nothing they depend on
/// changes.
pub proof fn law_lines_are_drawn_once(lines: Scanlines, key: LineKey, draws_rectangles: bool)
    requires
        lines.cache == Some(key),
    ensures
        !(line_plan(lines.cache, key, draws_rectangles) is Draw),
{
}

} // verus!
