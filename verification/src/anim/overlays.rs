//! What lies over the whole window.

use vstd::prelude::*;

use crate::anim::effects::Effect;
use crate::anim::ticks::Effects;
use crate::text::{digits, push_number};

verus! {

/// How long the keyboard and the wheel must rest before the overlays move again, in
/// milliseconds.
pub const QUIET_TIME: u64 = 350;

/// Whether someone is writing or scrolling.
pub struct Quiet {
    /// When a key or the wheel was last used, in milliseconds.
    pub last_input: Option<u64>,
}

impl Quiet {
    pub fn new() -> (quiet: Quiet)
        ensures
            quiet.last_input is None,
    {
        Quiet { last_input: None }
    }

    /// A key or the wheel was used.
    pub fn note_input(&mut self, now: u64)
        ensures
            final(self).last_input == Some(now),
    {
        self.last_input = Some(now);
    }

    /// Whether the overlays stand still at a time.
    pub open spec fn still_at(self, now: u64) -> bool {
        self.last_input matches Some(last) && now < last + QUIET_TIME
    }

    /// Whether the pulse of the vignette and the flicker stand still.
    pub fn paused(&self, now: u64) -> (still: bool)
        ensures
            still == self.still_at(now),
    {
        match self.last_input {
            Some(last) => now < last || now - last < QUIET_TIME,
            None => false,
        }
    }
}

/// What lies over the window. The fields say what is there.
#[derive(Debug, Clone, Copy, PartialEq, Eq, Structural)]
pub struct OverlayState {
    pub launched: bool,
    pub scanlines: bool,
    /// Whether the lines are to be seen.
    pub scanlines_visible: bool,
    pub vignette: bool,
    pub flicker: bool,
    /// The number of the widget over which nothing is shown.
    pub empty_host: Option<u64>,
    pub matrix: bool,
    /// Whether the rain is to be seen.
    pub matrix_visible: bool,
    pub grid: bool,
    /// Whether the grid is to be seen.
    pub grid_visible: bool,
}

impl OverlayState {
    /// Only what is there is to be seen.
    pub open spec fn well_formed(self) -> bool {
        &&& self.scanlines_visible ==> self.scanlines
        &&& self.matrix_visible ==> self.matrix
        &&& self.grid_visible ==> self.grid
    }

    pub fn new() -> (state: OverlayState)
        ensures
            state.well_formed(),
            state == (OverlayState {
                launched: false,
                scanlines: false,
                scanlines_visible: false,
                vignette: false,
                flicker: false,
                empty_host: None,
                matrix: false,
                matrix_visible: false,
                grid: false,
                grid_visible: false,
            }),
    {
        OverlayState {
            launched: false,
            scanlines: false,
            scanlines_visible: false,
            vignette: false,
            flicker: false,
            empty_host: None,
            matrix: false,
            matrix_visible: false,
            grid: false,
            grid_visible: false,
        }
    }

    /// What is left where all that is switched off goes. The lines are kept, to be
    /// seen no longer.
    pub open spec fn synced(self, effects: Effects) -> OverlayState {
        OverlayState {
            scanlines_visible: self.scanlines && effects.shows(Effect::Scanlines),
            vignette: self.vignette && effects.shows(Effect::Vignette),
            flicker: self.flicker && effects.shows(Effect::Flicker),
            matrix: self.matrix && effects.shows(Effect::Matrixrain),
            matrix_visible: self.matrix_visible && effects.shows(Effect::Matrixrain),
            grid: self.grid && effects.shows(Effect::Gridshimmer),
            grid_visible: self.grid_visible && effects.shows(Effect::Gridshimmer),
            ..self
        }
    }

    /// What is switched off goes. The lines are kept, to be seen no longer.
    pub fn sync_permanent(&mut self, effects: &Effects)
        requires
            old(self).well_formed(),
            effects.well_formed(),
        ensures
            final(self).well_formed(),
            *final(self) == old(self).synced(*effects),
    {
        self.scanlines_visible = self.scanlines && effects.on(Effect::Scanlines);
        self.vignette = self.vignette && effects.on(Effect::Vignette);
        self.flicker = self.flicker && effects.on(Effect::Flicker);
        let matrix = effects.on(Effect::Matrixrain);
        self.matrix = self.matrix && matrix;
        self.matrix_visible = self.matrix_visible && matrix;
        let grid = effects.on(Effect::Gridshimmer);
        self.grid = self.grid && grid;
        self.grid_visible = self.grid_visible && grid;
    }

    /// What is switched on comes.
    pub open spec fn ensured(self, effects: Effects) -> OverlayState {
        OverlayState {
            scanlines: self.scanlines || effects.shows(Effect::Scanlines),
            scanlines_visible: self.scanlines_visible || effects.shows(Effect::Scanlines),
            vignette: self.vignette || effects.shows(Effect::Vignette),
            flicker: self.flicker || effects.shows(Effect::Flicker),
            ..self
        }
    }

    fn ensure(&mut self, effects: &Effects)
        requires
            old(self).well_formed(),
            effects.well_formed(),
        ensures
            final(self).well_formed(),
            *final(self) == old(self).ensured(*effects),
    {
        if effects.on(Effect::Scanlines) {
            self.scanlines = true;
            self.scanlines_visible = true;
        }
        if effects.on(Effect::Vignette) {
            self.vignette = true;
        }
        if effects.on(Effect::Flicker) {
            self.flicker = true;
        }
    }

    /// The window opens. Returns whether the log is shown, and whether the beam is.
    pub fn launch(&mut self, effects: &Effects) -> (shown: (bool, bool))
        requires
            old(self).well_formed(),
            effects.well_formed(),
        ensures
            final(self).well_formed(),
            *final(self) == (OverlayState { launched: true, ..old(self).ensured(*effects) }),
            shown.0 == effects.shows(Effect::Bootlog),
            shown.1 == effects.shows(Effect::Poweron),
    {
        self.launched = true;
        self.ensure(effects);
        (effects.on(Effect::Bootlog), effects.on(Effect::Poweron))
    }

    /// What is switched on may have changed.
    pub fn refresh(&mut self, effects: &Effects)
        requires
            old(self).well_formed(),
            effects.well_formed(),
        ensures
            final(self).well_formed(),
            *final(self) == (if old(self).launched {
                old(self).ensured(*effects)
            } else {
                *old(self)
            }),
    {
        if self.launched {
            self.ensure(effects);
        }
    }

    /// What lies over a list of messages that is empty, or no longer. What lay over
    /// another list goes. What is there but switched off is not to be seen.
    pub open spec fn emptied(self, effects: Effects, host: u64, visible: bool) -> OverlayState {
        let same = self.empty_host == Some(host);
        let rains = effects.shows(Effect::Matrixrain);
        let shimmers = effects.shows(Effect::Gridshimmer);
        OverlayState {
            empty_host: Some(host),
            matrix: visible && (rains || (same && self.matrix)),
            matrix_visible: visible && rains,
            grid: visible && (shimmers || (same && self.grid)),
            grid_visible: visible && shimmers,
            ..self
        }
    }

    /// The list of messages is empty, or no longer.
    pub fn empty_state(&mut self, effects: &Effects, host: u64, visible: bool)
        requires
            old(self).well_formed(),
            effects.well_formed(),
        ensures
            final(self).well_formed(),
            *final(self) == old(self).emptied(*effects, host, visible),
    {
        let same = match self.empty_host {
            Some(current) => current == host,
            None => false,
        };
        let matrix = self.matrix && same;
        let grid = self.grid && same;
        let rains = effects.on(Effect::Matrixrain);
        let shimmers = effects.on(Effect::Gridshimmer);
        self.empty_host = Some(host);
        self.matrix = visible && (matrix || rains);
        self.matrix_visible = visible && rains;
        self.grid = visible && (grid || shimmers);
        self.grid_visible = visible && shimmers;
    }
}

/// How strong the flicker is, in hundredths, some microseconds after it began.
pub fn flicker_strength(elapsed: i64) -> (strength: u32)
    requires
        elapsed >= 0,
    ensures
        ({
            let frame = (elapsed as int / 16_667) % 360;
            strength == (if frame == 0 {
                12u32
            } else if frame == 1 {
                6u32
            } else {
                0u32
            })
        }),
{
    match (elapsed / 16_667) % 360 {
        0 => 12,
        1 => 6,
        _ => 0,
    }
}

/// A version of the toolkit.
#[derive(Debug, Clone, Copy, PartialEq, Eq, Structural)]
pub struct Version {
    pub major: u32,
    pub minor: u32,
    pub micro: u32,
}

/// How many lines the log has.
pub const BOOT_LINES: usize = 7;

/// A line of the log that is shown when the window opens.
pub open spec fn boot_line(version: Version, line: int) -> Seq<char> {
    if line == 0 {
        "omarchygram / active theme"@
    } else if line == 1 {
        "gtk "@ + digits(version.major as int) + "."@ + digits(version.minor as int) + "."@
            + digits(version.micro as int)
    } else if line == 2 {
        "session ok"@
    } else if line == 3 {
        "theme monitor ok"@
    } else if line == 4 {
        "dialogs ok"@
    } else if line == 5 {
        "updates live"@
    } else {
        "ready"@
    }
}

/// The first lines of the log, one below the other.
pub open spec fn boot_text(version: Version, lines: int) -> Seq<char>
    decreases lines,
{
    if lines <= 0 {
        Seq::empty()
    } else if lines == 1 {
        boot_line(version, 0)
    } else {
        boot_text(version, lines - 1) + "\n"@ + boot_line(version, lines - 1)
    }
}

fn push_boot_line(text: &mut String, version: Version, line: usize)
    ensures
        final(text)@ == old(text)@ + boot_line(version, line as int),
{
    match line {
        0 => text.push_str("omarchygram / active theme"),
        1 => {
            text.push_str("gtk ");
            push_number(text, version.major as u64);
            text.push_str(".");
            push_number(text, version.minor as u64);
            text.push_str(".");
            push_number(text, version.micro as u64);
            assert(text@ =~= old(text)@ + boot_line(version, 1));
        },
        2 => text.push_str("session ok"),
        3 => text.push_str("theme monitor ok"),
        4 => text.push_str("dialogs ok"),
        5 => text.push_str("updates live"),
        _ => text.push_str("ready"),
    }
}

/// The log that is shown when the window opens.
pub struct BootLog {
    pub version: Version,
    pub line: usize,
}

/// What the log does next.
pub enum BootStep {
    /// It shows one line more, and goes on in 120 milliseconds.
    Show(String),
    /// It is complete, and goes in 450 milliseconds.
    Complete,
    /// It goes at once, having been switched off.
    Remove,
}

impl BootLog {
    pub fn new(version: Version) -> (log: BootLog)
        ensures
            log.version == version,
            log.line == 0,
    {
        BootLog { version, line: 0 }
    }

    /// The first lines of the log.
    fn prefix(&self, lines: usize) -> (text: String)
        ensures
            text@ == boot_text(self.version, lines as int),
    {
        let mut text = String::new();
        let mut i: usize = 0;
        while i < lines
            invariant
                i <= lines,
                text@ == boot_text(self.version, i as int),
            decreases lines - i,
        {
            if i > 0 {
                text.push_str("\n");
            }
            push_boot_line(&mut text, self.version, i);
            i += 1;
            assert(text@ =~= boot_text(self.version, i as int));
        }
        text
    }

    pub fn step(&mut self, effects: &Effects) -> (step: BootStep)
        requires
            effects.well_formed(),
        ensures
            match step {
                BootStep::Remove => !effects.shows(Effect::Bootlog) && *final(self) == *old(self),
                BootStep::Complete => effects.shows(Effect::Bootlog) && old(self).line
                    >= BOOT_LINES && *final(self) == *old(self),
                BootStep::Show(text) => {
                    &&& effects.shows(Effect::Bootlog)
                    &&& old(self).line < BOOT_LINES
                    &&& text@ == boot_text(old(self).version, old(self).line + 1)
                    &&& final(self).line == old(self).line + 1
                    &&& final(self).version == old(self).version
                },
            },
    {
        if !effects.on(Effect::Bootlog) {
            return BootStep::Remove;
        }
        if self.line >= BOOT_LINES {
            return BootStep::Complete;
        }
        let text = self.prefix(self.line + 1);
        self.line = self.line + 1;
        BootStep::Show(text)
    }
}

/// A dot of the noise that is shown when something fails.
#[derive(Debug, Clone, Copy, PartialEq, Eq, Structural)]
pub struct Dot {
    pub x: u32,
    pub y: u32,
    pub width: u32,
    /// Whether it is one of the strong dots.
    pub strong: bool,
}

/// The bits of a number, turned to the left by eleven places.
pub open spec fn turned(value: u32) -> u32 {
    (value << 11) | (value >> 21)
}

/// The number from which a dot is made.
pub open spec fn dot_value(frame: u32, index: u32) -> u32 {
    frame.wrapping_mul(1_664_525).wrapping_add(1_013_904_223).wrapping_add(
        index.wrapping_mul(2_654_435_761),
    )
}

/// A length of at least one.
pub open spec fn at_least_one(length: i32) -> int {
    if length > 1 {
        length as int
    } else {
        1
    }
}

/// A dot of a frame of the noise.
pub open spec fn is_dot(dot: Dot, frame: u32, index: u32, width: i32, height: i32) -> bool {
    &&& dot.x == dot_value(frame, index) as int % at_least_one(width)
    &&& dot.y == turned(dot_value(frame, index)) as int % at_least_one(height)
    &&& dot.width == 1 + index % 5
    &&& dot.strong == (index % 3 == 0)
}

/// How many dots a frame of the noise has.
pub const DOT_COUNT: u32 = 96;

fn positive(length: i32) -> (size: u32)
    ensures
        size == at_least_one(length),
        size > 0,
{
    if length > 1 {
        length as u32
    } else {
        1
    }
}

/// The dots of a frame of the noise that is shown when something fails.
pub fn static_dots(frame: u32, width: i32, height: i32) -> (dots: Vec<Dot>)
    ensures
        dots@.len() == DOT_COUNT,
        forall|i: int|
            0 <= i < DOT_COUNT ==> is_dot(#[trigger] dots@[i], frame, i as u32, width, height),
{
    let mut dots: Vec<Dot> = Vec::new();
    let across: u32 = positive(width);
    let down: u32 = positive(height);
    let mut index: u32 = 0;
    while index < DOT_COUNT
        invariant
            index <= DOT_COUNT,
            across == at_least_one(width),
            down == at_least_one(height),
            across > 0,
            down > 0,
            dots@.len() == index,
            forall|i: int|
                0 <= i < index ==> is_dot(#[trigger] dots@[i], frame, i as u32, width, height),
        decreases DOT_COUNT - index,
    {
        let seed: u32 = frame.wrapping_mul(1_664_525).wrapping_add(1_013_904_223);
        let value: u32 = seed.wrapping_add(index.wrapping_mul(2_654_435_761));
        let turned_value: u32 = (value << 11) | (value >> 21);
        dots.push(
            Dot {
                x: value % across,
                y: turned_value % down,
                width: 1 + index % 5,
                strong: index % 3 == 0,
            },
        );
        index += 1;
    }
    dots
}

/// Whether the noise has been shown for long enough, in microseconds.
pub fn static_over(elapsed: i64) -> (over: bool)
    ensures
        over == (elapsed >= 300_000),
{
    elapsed >= 300_000
}

/// A sign of the rain.
#[derive(Debug, Clone, Copy, PartialEq, Eq, Structural)]
pub struct RainSign {
    pub x: i32,
    pub y: i32,
    /// Which of the signs it is.
    pub glyph: usize,
}

/// How many columns of signs fall.
pub open spec fn columns_of(width: i32) -> int {
    if at_least_one(width) / 16 > 1 {
        at_least_one(width) / 16
    } else {
        1
    }
}

/// In which row the first sign of a column is. It comes in from above the first row.
pub open spec fn row_of(frame: int, column: int, height: i32) -> int {
    (frame + column * 7) % (at_least_one(height) / 14 + 5) - 4
}

/// The sign that is shown for a number.
pub fn glyph_text(glyph: usize) -> (text: &'static str)
    ensures
        text@ == (if glyph % 8 == 0 {
            "0"@
        } else if glyph % 8 == 1 {
            "1"@
        } else if glyph % 8 == 2 {
            "+"@
        } else if glyph % 8 == 3 {
            "-"@
        } else if glyph % 8 == 4 {
            "<"@
        } else if glyph % 8 == 5 {
            ">"@
        } else if glyph % 8 == 6 {
            "░"@
        } else {
            "▓"@
        }),
{
    match glyph % 8 {
        0 => "0",
        1 => "1",
        2 => "+",
        3 => "-",
        4 => "<",
        5 => ">",
        6 => "░",
        _ => "▓",
    }
}

/// The distance of a number from zero.
pub open spec fn size_of_number(value: int) -> int {
    if value < 0 {
        -value
    } else {
        value
    }
}

/// The sign of a column that follows the first at a distance, where it is within the
/// window.
pub open spec fn drop_of(
    frame: int,
    column: int,
    trail: int,
    height: i32,
) -> Option<RainSign> {
    let row = row_of(frame, column, height);
    let y = (row - trail) * 14;
    if 0 <= y < height {
        Some(
            RainSign {
                x: (column * 16) as i32,
                y: y as i32,
                glyph: (size_of_number(column + row + trail) % 8) as usize,
            },
        )
    } else {
        None
    }
}

/// One sign of the rain in a frame. The frame is counted up to the largest `i32`.
pub fn rain_drop(frame: u32, column: u32, trail: u32, height: i32) -> (sign: Option<RainSign>)
    requires
        frame <= i32::MAX,
        column * 16 <= i32::MAX,
        trail < 4,
    ensures
        sign == drop_of(frame as int, column as int, trail as int, height),
{
    let rows: i64 = positive(height) as i64 / 14 + 5;
    let row: i64 = (frame as i64 + column as i64 * 7) % rows - 4;
    let y: i64 = (row - trail as i64) * 14;
    if y < 0 || y >= height as i64 {
        return None;
    }
    let sum: i64 = column as i64 + row + trail as i64;
    let size: i64 = if sum < 0 {
        -sum
    } else {
        sum
    };
    Some(RainSign { x: column as i32 * 16, y: y as i32, glyph: (size % 8) as usize })
}

/// How many columns of signs fall.
pub fn columns(width: i32) -> (count: u32)
    ensures
        count == columns_of(width),
        count >= 1,
        count * 16 <= i32::MAX + 16,
{
    let count: u32 = positive(width) / 16;
    if count > 1 {
        count
    } else {
        1
    }
}

/// Where the sign of a column is when the rain is shown on its own. Its sign is 0 in
/// every other column, and 1 between them.
pub fn preview_drop(frame: u32, column: u32, height: i32) -> (sign: RainSign)
    requires
        frame <= i32::MAX,
        column * 16 <= i32::MAX,
    ensures
        sign.x == column * 16,
        sign.y == ((frame + column * 5) % (at_least_one(height) / 14 + 1)) * 14,
        sign.glyph == column % 2,
{
    let rows: i64 = positive(height) as i64 / 14 + 1;
    let row: i64 = (frame as i64 + column as i64 * 5) % rows;
    RainSign { x: column as i32 * 16, y: (row * 14) as i32, glyph: (column % 2) as usize }
}

/// When the rain falls by one row.
pub struct Rain {
    pub frame: u32,
    pub last: i64,
}

impl Rain {
    /// Every 66 milliseconds. The time is in microseconds. After the last frame the
    /// first comes again.
    pub fn advance(&mut self, now: i64) -> (moved: bool)
        requires
            old(self).last >= 0,
            now >= old(self).last,
        ensures
            moved == (now - old(self).last >= 66_000),
            *final(self) == (if moved {
                Rain { frame: old(self).frame.wrapping_add(1), last: now }
            } else {
                *old(self)
            }),
    {
        if now - self.last >= 66_000 {
            self.last = now;
            self.frame = self.frame.wrapping_add(1);
            true
        } else {
            false
        }
    }
}

/// How far the grid has moved, in steps of sixteen: once around in 14 seconds, or in
/// 0.8 seconds where it is shown on its own. The time is in microseconds.
pub fn grid_step(elapsed: i64, shown_alone: bool) -> (step: usize)
    requires
        elapsed >= 0,
    ensures
        step == (if shown_alone {
            (elapsed as int / 50_000) % 16
        } else {
            (elapsed as int / 875_000) % 16
        }),
{
    if shown_alone {
        ((elapsed / 50_000) % 16) as usize
    } else {
        ((elapsed / 875_000) % 16) as usize
    }
}

/// While someone writes or scrolls the overlays stand still, and they move again once
/// the input has been quiet for the whole time.
pub proof fn law_overlays_wait_for_quiet(quiet: Quiet, now: u64)
    requires
        quiet.last_input matches Some(last) && last <= now,
    ensures
        quiet.still_at(now) <==> now - quiet.last_input->0 < QUIET_TIME,
{
}

/// What is switched off is not to be seen, and what is switched on is, once the window
/// has opened and the settings were looked at. What lies over an empty list is seen
/// as soon as the list was looked at, too.
pub proof fn law_overlays_follow_the_settings(
    before: OverlayState,
    effects: Effects,
    host: u64,
    visible: bool,
)
    requires
        before.well_formed(),
        before.launched,
    ensures
        ({
            let after = before.synced(effects).ensured(effects);
            &&& after.scanlines_visible == effects.shows(Effect::Scanlines)
            &&& after.vignette == effects.shows(Effect::Vignette)
            &&& after.flicker == effects.shows(Effect::Flicker)
            &&& after.matrix_visible ==> effects.shows(Effect::Matrixrain)
            &&& after.grid_visible ==> effects.shows(Effect::Gridshimmer)
        }),
        ({
            let after = before.emptied(effects, host, visible);
            &&& after.matrix_visible == (visible && effects.shows(Effect::Matrixrain))
            &&& after.grid_visible == (visible && effects.shows(Effect::Gridshimmer))
        }),
{
}

} // verus!
