//! The shade around the window, which is drawn once and kept.

use vstd::prelude::*;

verus! {

/// What a drawing of the shade depends on. The colour is held as the bits of its
/// parts.
#[derive(Debug, Clone, Copy, PartialEq, Eq, Structural)]
pub struct ShadeKey {
    pub width: i32,
    pub height: i32,
    pub scale: i32,
    pub red: u32,
    pub green: u32,
    pub blue: u32,
    pub alpha: u32,
}

/// What is to be done where the shade is shown.
#[derive(Debug, Clone, Copy, PartialEq, Eq, Structural)]
pub enum ShadePlan {
    Nothing,
    /// The shade is drawn anew in this size, and kept.
    Draw { width: i64, height: i64 },
    /// What was kept is shown.
    Reuse,
}

/// The shade that is kept, and how often it was drawn.
pub struct Vignette {
    pub cache: Option<ShadeKey>,
    pub builds: u64,
}

/// What is to be done where a shade is shown.
pub open spec fn shade_plan(kept: Option<ShadeKey>, key: ShadeKey) -> ShadePlan {
    if key.width <= 0 || key.height <= 0 {
        ShadePlan::Nothing
    } else if kept == Some(key) {
        ShadePlan::Reuse
    } else {
        ShadePlan::Draw {
            width: (key.width * key.scale) as i64,
            height: (key.height * key.scale) as i64,
        }
    }
}

impl Vignette {
    pub fn new() -> (shade: Vignette)
        ensures
            shade.cache is None,
            shade.builds == 0,
    {
        Vignette { cache: None, builds: 0 }
    }

    /// The shade is no longer to be seen.
    pub fn unmap(&mut self)
        ensures
            final(self).cache is None,
            final(self).builds == old(self).builds,
    {
        self.cache = None;
    }

    /// What is to be done where the shade is shown.
    pub fn snapshot(&self, key: ShadeKey) -> (plan: ShadePlan)
        ensures
            plan == shade_plan(self.cache, key),
    {
        if key.width <= 0 || key.height <= 0 {
            return ShadePlan::Nothing;
        }
        if let Some(kept) = self.cache {
            if kept == key {
                return ShadePlan::Reuse;
            }
        }
        proof {
            assert(-0x4000_0000_0000_0000 <= key.width * key.scale <= 0x4000_0000_0000_0000)
                by (nonlinear_arith)
                requires
                    0 < key.width <= 0x7fff_ffff,
                    -0x8000_0000 <= key.scale <= 0x7fff_ffff,
            ;
            assert(-0x4000_0000_0000_0000 <= key.height * key.scale <= 0x4000_0000_0000_0000)
                by (nonlinear_arith)
                requires
                    0 < key.height <= 0x7fff_ffff,
                    -0x8000_0000 <= key.scale <= 0x7fff_ffff,
            ;
        }
        ShadePlan::Draw {
            width: key.width as i64 * key.scale as i64,
            height: key.height as i64 * key.scale as i64,
        }
    }

    /// The shade was drawn.
    pub fn drawn(&mut self, key: ShadeKey)
        requires
            old(self).builds < u64::MAX,
        ensures
            final(self).cache == Some(key),
            final(self).builds == old(self).builds + 1,
    {
        self.cache = Some(key);
        self.builds = self.builds + 1;
    }

    /// How often the shade was drawn.
    pub fn rasterizations(&self) -> (count: u64)
        ensures
            count == self.builds,
    {
        self.builds
    }
}

/// A shade that was drawn is not drawn again as long as nothing it depends on changes.
pub proof fn law_shade_is_drawn_once(shade: Vignette, key: ShadeKey)
    requires
        shade.cache == Some(key),
    ensures
        !(shade_plan(shade.cache, key) is Draw),
{
}

} // verus!
