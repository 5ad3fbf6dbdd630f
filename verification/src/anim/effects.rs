//! The effects that can be switched on.

use vstd::prelude::*;

use crate::text::same_text;

verus! {

/// How many effects there are.
pub const EFFECT_COUNT: usize = 54;

/// Effects of which one is chosen.
#[derive(Debug, Clone, Copy, PartialEq, Eq, Structural)]
pub enum RadioGroup {
    /// How a message comes in.
    Entry,
    /// How a message goes out.
    Send,
    /// How another chat is shown.
    Switch,
}

/// An effect.
#[derive(Debug, Clone, Copy, PartialEq, Eq, Structural)]
pub enum Effect {
    Typewriter,
    Decode,
    Lineprint,
    Fadeup,
    Instantcursor,
    Borderdraw,
    Entrynone,
    Invert,
    Ticksweep,
    Sendspin,
    Sendnone,
    Wipe,
    Crossfade,
    Cascade,
    Switchnone,
    Reactburst,
    Reactroll,
    Receiptdraw,
    Editripple,
    Deletedissolve,
    Braille,
    Ellipsis,
    Badgepop,
    Badgeroll,
    Badgepulse,
    Bellshake,
    Asciiload,
    Selbaron,
    Jumprocket,
    Unreaddivider,
    Datefloat,
    Chargesend,
    Attachunfold,
    Equalizer,
    Bootlog,
    Phosphorburn,
    Flicker,
    Scanlines,
    Vignette,
    Staticerror,
    Cursorcomet,
    Thememorph,
    Poweron,
    Scansweep,
    Composercursor,
    Focusdim,
    Hovertrace,
    Glitch,
    Matrixrain,
    Gridshimmer,
    Tsreveal,
    Liveclock,
    Onlinebreathe,
    Unreadcomet,
}

/// What the settings say of an effect.
#[derive(Debug, Clone, Copy, PartialEq, Eq)]
pub struct EffectSpec {
    pub id: &'static str,
    pub label: &'static str,
    pub description: &'static str,
    pub group: Option<RadioGroup>,
}

pub const TYPEWRITER_TEXT: &'static str = "text types out with a block cursor — code: label text grows 1 char/18ms via timeout; cursor = \"▌\" appended, removed 350ms after.";

pub const DECODE_TEXT: &'static str = "glyphs scramble then settle — code: per-frame label text with random glyphs from `░▒▓#$%@&*+=-<>` for unsettled positions, 16ms.";

pub const LINEPRINT_TEXT: &'static str = "reveals top-down in steps — code: a `gtk::Revealer` with `SlideDown` 280ms, `set_reveal_child(true)` after add.";

pub const FADEUP_TEXT: &'static str = "soft rise, 160ms — CSS: `omg-anim-fadeup` keyframes opacity 0→1 + `margin-top: 4px→0`.";

pub const INSTANTCURSOR_TEXT: &'static str = "instant + cursor blinks twice — code: cursor label blink via 2 timeouts.";

pub const BORDERDRAW_TEXT: &'static str = "border traces around — code: animate `border-color` via CSS keyframes cycling `transparent→accent` on each side in sequence (4 keyframe steps).";

pub const ENTRYNONE_TEXT: &'static str = "hard cut.";

pub const INVERT_TEXT: &'static str = "CSS keyframe 90ms swapping bg/fg.";

pub const TICKSWEEP_TEXT: &'static str = "a 1px accent box under the bubble grows `margin-end` 100%→0 via CSS.";

pub const SENDSPIN_TEXT: &'static str = "Send button label cycles ⠋⠙⠹⠸⠼⠴ 60ms until the send resolves.";

pub const SENDNONE_TEXT: &'static str = "no send feedback.";

pub const WIPE_TEXT: &'static str = "overlay dark box slides via `gtk::Revealer` SlideRight in, then out (260ms).";

pub const CROSSFADE_TEXT: &'static str = "messages box opacity keyframe 100ms.";

pub const CASCADE_TEXT: &'static str = "each row `omg-anim-fadeup` with a per-row delay (i*20ms, via timeout adding the class).";

pub const SWITCHNONE_TEXT: &'static str = "no chat-switch effect.";

pub const REACTBURST_TEXT: &'static str = "chip `omg-anim-pop` (opacity+margin) + 6 tiny `gtk::Label(\"·\")` particles animated outward via margin keyframes then removed.";

pub const REACTROLL_TEXT: &'static str = "count label swapped after a 200ms opacity dip.";

pub const RECEIPTDRAW_TEXT: &'static str = "\"✓\" then \"✓✓\" 400ms later with a fade.";

pub const EDITRIPPLE_TEXT: &'static str = "`box-shadow` keyframe 0→6px transparent-accent 500ms.";

pub const DELETEDISSOLVE_TEXT: &'static str = "6 frames of glyph noise (code) then opacity→0 300ms, caller removes after 500ms.";

pub const BRAILLE_TEXT: &'static str = "typing label cycles ⠋⠙⠹⠸⠼⠴⠦⠧ 70ms.";

pub const ELLIPSIS_TEXT: &'static str = "\"typing.\" \"..\" \"...\" 240ms.";

pub const BADGEPOP_TEXT: &'static str = "CSS pop keyframe (opacity + margin).";

pub const BADGEROLL_TEXT: &'static str = "old count fades up/out, new fades in from below (two labels in an overflow box, 220ms).";

pub const BADGEPULSE_TEXT: &'static str = "CSS `box-shadow` glow keyframe 2.4s infinite on badges with count>0.";

pub const BELLSHAKE_TEXT: &'static str = "row `margin-start` ±3px keyframes 400ms.";

pub const ASCIILOAD_TEXT: &'static str = "placeholder text `[▓▓░░░░░░] photo` frames 110ms.";

pub const SELBARON_TEXT: &'static str = "accent bar widget in the sidebar overlay whose `margin-top` animates to the selected row's y (180ms, tick-interpolated).";

pub const JUMPROCKET_TEXT: &'static str = "▼ button opacity dip + `margin-bottom` 6px keyframe 400ms.";

pub const UNREADDIVIDER_TEXT: &'static str = "divider row opacity 0→1 + width via revealer 400ms.";

pub const DATEFLOAT_TEXT: &'static str = "date chip revealer crossfade, auto-hide 900ms after last scroll.";

pub const CHARGESEND_TEXT: &'static str = "Send button gets a child fill box growing over 600ms (CSS margin keyframe); send fires after.";

pub const ATTACHUNFOLD_TEXT: &'static str = "popover children each `omg-anim-fadeup` with 40ms stagger.";

pub const EQUALIZER_TEXT: &'static str = "5 tiny boxes in the composer whose heights cycle via tick while the user types (text-changed → 1.5s window).";

pub const BOOTLOG_TEXT: &'static str = "overlay label appends 7 fixed lines (app name/theme, gtk version, session ok, theme monitor, dialogs ok, updates live, ready) 120ms each, removed 450ms later — runs at launch.";

pub const PHOSPHORBURN_TEXT: &'static str = "new rows get `omg-anim-burn` (color bright→fg + box-shadow glow 1.1s).";

pub const FLICKER_TEXT: &'static str = "window overlay opacity 0/0.06/0.12 for 2 frames every ~6s.";

pub const SCANLINES_TEXT: &'static str = "permanent overlay DrawingArea (1px lines every 3px at 16% black).";

pub const VIGNETTE_TEXT: &'static str = "overlay radial darkening, breathing 5s.";

pub const STATICERROR_TEXT: &'static str = "noise DrawingArea 300ms on a failed send (hook `error_flash`).";

pub const CURSORCOMET_TEXT: &'static str = "composer cursor gets `box-shadow` trail class.";

pub const THEMEMORPH_TEXT: &'static str = "`omg-anim-thememorph` adds `transition: background-color .5s, color .5s, border-color .5s` to the main surfaces (GTK supports transitions on these).";

pub const POWERON_TEXT: &'static str = "beam overlay: 2px box widens (margin keyframe) then heightens to full and fades, at launch.";

pub const SCANSWEEP_TEXT: &'static str = "56px gradient box moves top→bottom via tick 600ms on theme switch (hook `theme_switched`).";

pub const COMPOSERCURSOR_TEXT: &'static str = "blinking ▌ in the empty composer (CSS blink keyframe 1.06s steps).";

pub const FOCUSDIM_TEXT: &'static str = "root gets `omg-anim-dim` (opacity .72 on side+chat) on window inactive.";

pub const HOVERTRACE_TEXT: &'static str = "CSS `:hover` underline via `border-bottom` width transition on chat rows (approximate with `border-bottom-color` transition).";

pub const GLITCH_TEXT: &'static str = "on hover, row title color flickers accent/yellow 2 frames (CSS keyframe on color).";

pub const MATRIXRAIN_TEXT: &'static str = "DrawingArea behind the empty state (columns of glyphs falling, 66ms tick, only while empty state shown).";

pub const GRIDSHIMMER_TEXT: &'static str = "empty-state background repeating gradient, `background-position` animated via tick 14s loop.";

pub const TSREVEAL_TEXT: &'static str = "CSS: `.omg-msg .omg-meta { opacity:0 }`, `:hover` → 1 with .18s transition.";

pub const LIVECLOCK_TEXT: &'static str = "already exists (wave 1 header clock) — this toggle mirrors `header_clock` (turning either on turns both on).";

pub const ONLINEBREATHE_TEXT: &'static str = "presence dot (a 6px accent box next to the title, shown for chats with a recent incoming message (<5 min) as a stand-in for backend online state).";

pub const UNREADCOMET_TEXT: &'static str = "a small accent dot in the sidebar overlay animating from the top to the row's y with a fading trail on a background NewMessage.";

/// The name of an effect.
pub open spec fn id_of(effect: Effect) -> Seq<char> {
    match effect {
        Effect::Typewriter => "typewriter"@,
        Effect::Decode => "decode"@,
        Effect::Lineprint => "lineprint"@,
        Effect::Fadeup => "fadeup"@,
        Effect::Instantcursor => "instantcursor"@,
        Effect::Borderdraw => "borderdraw"@,
        Effect::Entrynone => "entrynone"@,
        Effect::Invert => "invert"@,
        Effect::Ticksweep => "ticksweep"@,
        Effect::Sendspin => "sendspin"@,
        Effect::Sendnone => "sendnone"@,
        Effect::Wipe => "wipe"@,
        Effect::Crossfade => "crossfade"@,
        Effect::Cascade => "cascade"@,
        Effect::Switchnone => "switchnone"@,
        Effect::Reactburst => "reactburst"@,
        Effect::Reactroll => "reactroll"@,
        Effect::Receiptdraw => "receiptdraw"@,
        Effect::Editripple => "editripple"@,
        Effect::Deletedissolve => "deletedissolve"@,
        Effect::Braille => "braille"@,
        Effect::Ellipsis => "ellipsis"@,
        Effect::Badgepop => "badgepop"@,
        Effect::Badgeroll => "badgeroll"@,
        Effect::Badgepulse => "badgepulse"@,
        Effect::Bellshake => "bellshake"@,
        Effect::Asciiload => "asciiload"@,
        Effect::Selbaron => "selbaron"@,
        Effect::Jumprocket => "jumprocket"@,
        Effect::Unreaddivider => "unreaddivider"@,
        Effect::Datefloat => "datefloat"@,
        Effect::Chargesend => "chargesend"@,
        Effect::Attachunfold => "attachunfold"@,
        Effect::Equalizer => "equalizer"@,
        Effect::Bootlog => "bootlog"@,
        Effect::Phosphorburn => "phosphorburn"@,
        Effect::Flicker => "flicker"@,
        Effect::Scanlines => "scanlines"@,
        Effect::Vignette => "vignette"@,
        Effect::Staticerror => "staticerror"@,
        Effect::Cursorcomet => "cursorcomet"@,
        Effect::Thememorph => "thememorph"@,
        Effect::Poweron => "poweron"@,
        Effect::Scansweep => "scansweep"@,
        Effect::Composercursor => "composercursor"@,
        Effect::Focusdim => "focusdim"@,
        Effect::Hovertrace => "hovertrace"@,
        Effect::Glitch => "glitch"@,
        Effect::Matrixrain => "matrixrain"@,
        Effect::Gridshimmer => "gridshimmer"@,
        Effect::Tsreveal => "tsreveal"@,
        Effect::Liveclock => "liveclock"@,
        Effect::Onlinebreathe => "onlinebreathe"@,
        Effect::Unreadcomet => "unreadcomet"@,
    }
}

/// What is said of an effect.
pub open spec fn description_of(effect: Effect) -> Seq<char> {
    match effect {
        Effect::Typewriter => TYPEWRITER_TEXT@,
        Effect::Decode => DECODE_TEXT@,
        Effect::Lineprint => LINEPRINT_TEXT@,
        Effect::Fadeup => FADEUP_TEXT@,
        Effect::Instantcursor => INSTANTCURSOR_TEXT@,
        Effect::Borderdraw => BORDERDRAW_TEXT@,
        Effect::Entrynone => ENTRYNONE_TEXT@,
        Effect::Invert => INVERT_TEXT@,
        Effect::Ticksweep => TICKSWEEP_TEXT@,
        Effect::Sendspin => SENDSPIN_TEXT@,
        Effect::Sendnone => SENDNONE_TEXT@,
        Effect::Wipe => WIPE_TEXT@,
        Effect::Crossfade => CROSSFADE_TEXT@,
        Effect::Cascade => CASCADE_TEXT@,
        Effect::Switchnone => SWITCHNONE_TEXT@,
        Effect::Reactburst => REACTBURST_TEXT@,
        Effect::Reactroll => REACTROLL_TEXT@,
        Effect::Receiptdraw => RECEIPTDRAW_TEXT@,
        Effect::Editripple => EDITRIPPLE_TEXT@,
        Effect::Deletedissolve => DELETEDISSOLVE_TEXT@,
        Effect::Braille => BRAILLE_TEXT@,
        Effect::Ellipsis => ELLIPSIS_TEXT@,
        Effect::Badgepop => BADGEPOP_TEXT@,
        Effect::Badgeroll => BADGEROLL_TEXT@,
        Effect::Badgepulse => BADGEPULSE_TEXT@,
        Effect::Bellshake => BELLSHAKE_TEXT@,
        Effect::Asciiload => ASCIILOAD_TEXT@,
        Effect::Selbaron => SELBARON_TEXT@,
        Effect::Jumprocket => JUMPROCKET_TEXT@,
        Effect::Unreaddivider => UNREADDIVIDER_TEXT@,
        Effect::Datefloat => DATEFLOAT_TEXT@,
        Effect::Chargesend => CHARGESEND_TEXT@,
        Effect::Attachunfold => ATTACHUNFOLD_TEXT@,
        Effect::Equalizer => EQUALIZER_TEXT@,
        Effect::Bootlog => BOOTLOG_TEXT@,
        Effect::Phosphorburn => PHOSPHORBURN_TEXT@,
        Effect::Flicker => FLICKER_TEXT@,
        Effect::Scanlines => SCANLINES_TEXT@,
        Effect::Vignette => VIGNETTE_TEXT@,
        Effect::Staticerror => STATICERROR_TEXT@,
        Effect::Cursorcomet => CURSORCOMET_TEXT@,
        Effect::Thememorph => THEMEMORPH_TEXT@,
        Effect::Poweron => POWERON_TEXT@,
        Effect::Scansweep => SCANSWEEP_TEXT@,
        Effect::Composercursor => COMPOSERCURSOR_TEXT@,
        Effect::Focusdim => FOCUSDIM_TEXT@,
        Effect::Hovertrace => HOVERTRACE_TEXT@,
        Effect::Glitch => GLITCH_TEXT@,
        Effect::Matrixrain => MATRIXRAIN_TEXT@,
        Effect::Gridshimmer => GRIDSHIMMER_TEXT@,
        Effect::Tsreveal => TSREVEAL_TEXT@,
        Effect::Liveclock => LIVECLOCK_TEXT@,
        Effect::Onlinebreathe => ONLINEBREATHE_TEXT@,
        Effect::Unreadcomet => UNREADCOMET_TEXT@,
    }
}

/// The group that an effect belongs to.
pub open spec fn group_of(effect: Effect) -> Option<RadioGroup> {
    match effect {
        Effect::Typewriter
        | Effect::Decode
        | Effect::Lineprint
        | Effect::Fadeup
        | Effect::Instantcursor
        | Effect::Borderdraw
        | Effect::Entrynone => Some(RadioGroup::Entry),
        Effect::Invert
        | Effect::Ticksweep
        | Effect::Sendspin
        | Effect::Sendnone => Some(RadioGroup::Send),
        Effect::Wipe
        | Effect::Crossfade
        | Effect::Cascade
        | Effect::Switchnone => Some(RadioGroup::Switch),
        _ => None,
    }
}

/// The place of an effect among all.
pub open spec fn index_of(effect: Effect) -> int {
    match effect {
        Effect::Typewriter => 0,
        Effect::Decode => 1,
        Effect::Lineprint => 2,
        Effect::Fadeup => 3,
        Effect::Instantcursor => 4,
        Effect::Borderdraw => 5,
        Effect::Entrynone => 6,
        Effect::Invert => 7,
        Effect::Ticksweep => 8,
        Effect::Sendspin => 9,
        Effect::Sendnone => 10,
        Effect::Wipe => 11,
        Effect::Crossfade => 12,
        Effect::Cascade => 13,
        Effect::Switchnone => 14,
        Effect::Reactburst => 15,
        Effect::Reactroll => 16,
        Effect::Receiptdraw => 17,
        Effect::Editripple => 18,
        Effect::Deletedissolve => 19,
        Effect::Braille => 20,
        Effect::Ellipsis => 21,
        Effect::Badgepop => 22,
        Effect::Badgeroll => 23,
        Effect::Badgepulse => 24,
        Effect::Bellshake => 25,
        Effect::Asciiload => 26,
        Effect::Selbaron => 27,
        Effect::Jumprocket => 28,
        Effect::Unreaddivider => 29,
        Effect::Datefloat => 30,
        Effect::Chargesend => 31,
        Effect::Attachunfold => 32,
        Effect::Equalizer => 33,
        Effect::Bootlog => 34,
        Effect::Phosphorburn => 35,
        Effect::Flicker => 36,
        Effect::Scanlines => 37,
        Effect::Vignette => 38,
        Effect::Staticerror => 39,
        Effect::Cursorcomet => 40,
        Effect::Thememorph => 41,
        Effect::Poweron => 42,
        Effect::Scansweep => 43,
        Effect::Composercursor => 44,
        Effect::Focusdim => 45,
        Effect::Hovertrace => 46,
        Effect::Glitch => 47,
        Effect::Matrixrain => 48,
        Effect::Gridshimmer => 49,
        Effect::Tsreveal => 50,
        Effect::Liveclock => 51,
        Effect::Onlinebreathe => 52,
        Effect::Unreadcomet => 53,
    }
}

/// The effect at a place.
pub open spec fn effect_at(index: int) -> Effect {
    if index == 0 {
        Effect::Typewriter
    } else if index == 1 {
        Effect::Decode
    } else if index == 2 {
        Effect::Lineprint
    } else if index == 3 {
        Effect::Fadeup
    } else if index == 4 {
        Effect::Instantcursor
    } else if index == 5 {
        Effect::Borderdraw
    } else if index == 6 {
        Effect::Entrynone
    } else if index == 7 {
        Effect::Invert
    } else if index == 8 {
        Effect::Ticksweep
    } else if index == 9 {
        Effect::Sendspin
    } else if index == 10 {
        Effect::Sendnone
    } else if index == 11 {
        Effect::Wipe
    } else if index == 12 {
        Effect::Crossfade
    } else if index == 13 {
        Effect::Cascade
    } else if index == 14 {
        Effect::Switchnone
    } else if index == 15 {
        Effect::Reactburst
    } else if index == 16 {
        Effect::Reactroll
    } else if index == 17 {
        Effect::Receiptdraw
    } else if index == 18 {
        Effect::Editripple
    } else if index == 19 {
        Effect::Deletedissolve
    } else if index == 20 {
        Effect::Braille
    } else if index == 21 {
        Effect::Ellipsis
    } else if index == 22 {
        Effect::Badgepop
    } else if index == 23 {
        Effect::Badgeroll
    } else if index == 24 {
        Effect::Badgepulse
    } else if index == 25 {
        Effect::Bellshake
    } else if index == 26 {
        Effect::Asciiload
    } else if index == 27 {
        Effect::Selbaron
    } else if index == 28 {
        Effect::Jumprocket
    } else if index == 29 {
        Effect::Unreaddivider
    } else if index == 30 {
        Effect::Datefloat
    } else if index == 31 {
        Effect::Chargesend
    } else if index == 32 {
        Effect::Attachunfold
    } else if index == 33 {
        Effect::Equalizer
    } else if index == 34 {
        Effect::Bootlog
    } else if index == 35 {
        Effect::Phosphorburn
    } else if index == 36 {
        Effect::Flicker
    } else if index == 37 {
        Effect::Scanlines
    } else if index == 38 {
        Effect::Vignette
    } else if index == 39 {
        Effect::Staticerror
    } else if index == 40 {
        Effect::Cursorcomet
    } else if index == 41 {
        Effect::Thememorph
    } else if index == 42 {
        Effect::Poweron
    } else if index == 43 {
        Effect::Scansweep
    } else if index == 44 {
        Effect::Composercursor
    } else if index == 45 {
        Effect::Focusdim
    } else if index == 46 {
        Effect::Hovertrace
    } else if index == 47 {
        Effect::Glitch
    } else if index == 48 {
        Effect::Matrixrain
    } else if index == 49 {
        Effect::Gridshimmer
    } else if index == 50 {
        Effect::Tsreveal
    } else if index == 51 {
        Effect::Liveclock
    } else if index == 52 {
        Effect::Onlinebreathe
    } else {
        Effect::Unreadcomet
    }
}

/// Each effect has its own place.
pub proof fn lemma_places(effect: Effect)
    ensures
        0 <= index_of(effect) < EFFECT_COUNT,
        effect_at(index_of(effect)) == effect,
{
}

/// No effect is listed twice: at each place stands another one.
pub proof fn law_effects_are_listed_once(index: int)
    requires
        0 <= index < EFFECT_COUNT,
    ensures
        index_of(effect_at(index)) == index,
{
}

/// A number that tells the effects' names apart.
spec fn fingerprint(id: Seq<char>) -> int {
    id.len() + 100 * (id[0] as int + 128 * (id[2] as int + 128 * id.last() as int))
}

spec fn by_fingerprint(number: int) -> Effect {
    if number == 188222810 {
        Effect::Typewriter
    } else if number == 166755606 {
        Effect::Decode
    } else if number == 191473209 {
        Effect::Lineprint
    } else if number == 184791006 {
        Effect::Fadeup
    } else if number == 188260113 {
        Effect::Instantcursor
    } else if number == 196438610 {
        Effect::Borderdraw
    } else if number == 166973309 {
        Effect::Entrynone
    } else if number == 191575306 {
        Effect::Invert
    } else if number == 184779609 {
        Effect::Ticksweep
    } else if number == 181643508 {
        Effect::Sendspin
    } else if number == 166897908 {
        Effect::Sendnone
    } else if number == 166923904 {
        Effect::Wipe
    } else if number == 166909109 {
        Effect::Crossfade
    } else if number == 166960307 {
        Effect::Cascade
    } else if number == 166833910 {
        Effect::Switchnone
    } else if number == 191307410 {
        Effect::Reactburst
    } else if number == 178200209 {
        Effect::Reactroll
    } else if number == 196248211 {
        Effect::Receiptdraw
    } else if number == 166832510 {
        Effect::Editripple
    } else if number == 166870814 {
        Effect::Deletedissolve
    } else if number == 166729807 {
        Effect::Braille
    } else if number == 189808508 {
        Effect::Ellipsis
    } else if number == 184790608 {
        Effect::Badgepop
    } else if number == 178237009 {
        Effect::Badgeroll
    } else if number == 166768210 {
        Effect::Badgepulse
    } else if number == 166870609 {
        Effect::Bellshake
    } else if number == 165116909 {
        Effect::Asciiload
    } else if number == 181617908 {
        Effect::Selbaron
    } else if number == 191460210 {
        Effect::Jumprocket
    } else if number == 188248513 {
        Effect::Unreaddivider
    } else if number == 191549209 {
        Effect::Datefloat
    } else if number == 165091510 {
        Effect::Chargesend
    } else if number == 165334512 {
        Effect::Attachunfold
    } else if number == 188285309 {
        Effect::Equalizer
    } else if number == 170185807 {
        Effect::Bootlog
    } else if number == 181656012 {
        Effect::Phosphorburn
    } else if number == 188131807 {
        Effect::Flicker
    } else if number == 189669109 {
        Effect::Scanlines
    } else if number == 166808608 {
        Effect::Vignette
    } else if number == 188030711 {
        Effect::Staticerror
    } else if number == 191523511 {
        Effect::Cursorcomet
    } else if number == 171698010 {
        Effect::Thememorph
    } else if number == 181758407 {
        Effect::Poweron
    } else if number == 184753909 {
        Effect::Scansweep
    } else if number == 188182714 {
        Effect::Composercursor
    } else if number == 179863008 {
        Effect::Focusdim
    } else if number == 166999210 {
        Effect::Hovertrace
    } else if number == 171747906 {
        Effect::Glitch
    } else if number == 181719710 {
        Effect::Matrixrain
    } else if number == 188131911 {
        Effect::Gridshimmer
    } else if number == 178418008 {
        Effect::Tsreveal
    } else if number == 176830009 {
        Effect::Liveclock
    } else if number == 166871913 {
        Effect::Onlinebreathe
    } else {
        Effect::Unreadcomet
    }
}

proof fn lemma_fingerprint(effect: Effect)
    ensures
        by_fingerprint(fingerprint(id_of(effect))) == effect,
{
    match effect {
        Effect::Typewriter => {
            reveal_strlit("typewriter");
            assert(fingerprint("typewriter"@) == 188222810);
        },
        Effect::Decode => {
            reveal_strlit("decode");
            assert(fingerprint("decode"@) == 166755606);
        },
        Effect::Lineprint => {
            reveal_strlit("lineprint");
            assert(fingerprint("lineprint"@) == 191473209);
        },
        Effect::Fadeup => {
            reveal_strlit("fadeup");
            assert(fingerprint("fadeup"@) == 184791006);
        },
        Effect::Instantcursor => {
            reveal_strlit("instantcursor");
            assert(fingerprint("instantcursor"@) == 188260113);
        },
        Effect::Borderdraw => {
            reveal_strlit("borderdraw");
            assert(fingerprint("borderdraw"@) == 196438610);
        },
        Effect::Entrynone => {
            reveal_strlit("entrynone");
            assert(fingerprint("entrynone"@) == 166973309);
        },
        Effect::Invert => {
            reveal_strlit("invert");
            assert(fingerprint("invert"@) == 191575306);
        },
        Effect::Ticksweep => {
            reveal_strlit("ticksweep");
            assert(fingerprint("ticksweep"@) == 184779609);
        },
        Effect::Sendspin => {
            reveal_strlit("sendspin");
            assert(fingerprint("sendspin"@) == 181643508);
        },
        Effect::Sendnone => {
            reveal_strlit("sendnone");
            assert(fingerprint("sendnone"@) == 166897908);
        },
        Effect::Wipe => {
            reveal_strlit("wipe");
            assert(fingerprint("wipe"@) == 166923904);
        },
        Effect::Crossfade => {
            reveal_strlit("crossfade");
            assert(fingerprint("crossfade"@) == 166909109);
        },
        Effect::Cascade => {
            reveal_strlit("cascade");
            assert(fingerprint("cascade"@) == 166960307);
        },
        Effect::Switchnone => {
            reveal_strlit("switchnone");
            assert(fingerprint("switchnone"@) == 166833910);
        },
        Effect::Reactburst => {
            reveal_strlit("reactburst");
            assert(fingerprint("reactburst"@) == 191307410);
        },
        Effect::Reactroll => {
            reveal_strlit("reactroll");
            assert(fingerprint("reactroll"@) == 178200209);
        },
        Effect::Receiptdraw => {
            reveal_strlit("receiptdraw");
            assert(fingerprint("receiptdraw"@) == 196248211);
        },
        Effect::Editripple => {
            reveal_strlit("editripple");
            assert(fingerprint("editripple"@) == 166832510);
        },
        Effect::Deletedissolve => {
            reveal_strlit("deletedissolve");
            assert(fingerprint("deletedissolve"@) == 166870814);
        },
        Effect::Braille => {
            reveal_strlit("braille");
            assert(fingerprint("braille"@) == 166729807);
        },
        Effect::Ellipsis => {
            reveal_strlit("ellipsis");
            assert(fingerprint("ellipsis"@) == 189808508);
        },
        Effect::Badgepop => {
            reveal_strlit("badgepop");
            assert(fingerprint("badgepop"@) == 184790608);
        },
        Effect::Badgeroll => {
            reveal_strlit("badgeroll");
            assert(fingerprint("badgeroll"@) == 178237009);
        },
        Effect::Badgepulse => {
            reveal_strlit("badgepulse");
            assert(fingerprint("badgepulse"@) == 166768210);
        },
        Effect::Bellshake => {
            reveal_strlit("bellshake");
            assert(fingerprint("bellshake"@) == 166870609);
        },
        Effect::Asciiload => {
            reveal_strlit("asciiload");
            assert(fingerprint("asciiload"@) == 165116909);
        },
        Effect::Selbaron => {
            reveal_strlit("selbaron");
            assert(fingerprint("selbaron"@) == 181617908);
        },
        Effect::Jumprocket => {
            reveal_strlit("jumprocket");
            assert(fingerprint("jumprocket"@) == 191460210);
        },
        Effect::Unreaddivider => {
            reveal_strlit("unreaddivider");
            assert(fingerprint("unreaddivider"@) == 188248513);
        },
        Effect::Datefloat => {
            reveal_strlit("datefloat");
            assert(fingerprint("datefloat"@) == 191549209);
        },
        Effect::Chargesend => {
            reveal_strlit("chargesend");
            assert(fingerprint("chargesend"@) == 165091510);
        },
        Effect::Attachunfold => {
            reveal_strlit("attachunfold");
            assert(fingerprint("attachunfold"@) == 165334512);
        },
        Effect::Equalizer => {
            reveal_strlit("equalizer");
            assert(fingerprint("equalizer"@) == 188285309);
        },
        Effect::Bootlog => {
            reveal_strlit("bootlog");
            assert(fingerprint("bootlog"@) == 170185807);
        },
        Effect::Phosphorburn => {
            reveal_strlit("phosphorburn");
            assert(fingerprint("phosphorburn"@) == 181656012);
        },
        Effect::Flicker => {
            reveal_strlit("flicker");
            assert(fingerprint("flicker"@) == 188131807);
        },
        Effect::Scanlines => {
            reveal_strlit("scanlines");
            assert(fingerprint("scanlines"@) == 189669109);
        },
        Effect::Vignette => {
            reveal_strlit("vignette");
            assert(fingerprint("vignette"@) == 166808608);
        },
        Effect::Staticerror => {
            reveal_strlit("staticerror");
            assert(fingerprint("staticerror"@) == 188030711);
        },
        Effect::Cursorcomet => {
            reveal_strlit("cursorcomet");
            assert(fingerprint("cursorcomet"@) == 191523511);
        },
        Effect::Thememorph => {
            reveal_strlit("thememorph");
            assert(fingerprint("thememorph"@) == 171698010);
        },
        Effect::Poweron => {
            reveal_strlit("poweron");
            assert(fingerprint("poweron"@) == 181758407);
        },
        Effect::Scansweep => {
            reveal_strlit("scansweep");
            assert(fingerprint("scansweep"@) == 184753909);
        },
        Effect::Composercursor => {
            reveal_strlit("composercursor");
            assert(fingerprint("composercursor"@) == 188182714);
        },
        Effect::Focusdim => {
            reveal_strlit("focusdim");
            assert(fingerprint("focusdim"@) == 179863008);
        },
        Effect::Hovertrace => {
            reveal_strlit("hovertrace");
            assert(fingerprint("hovertrace"@) == 166999210);
        },
        Effect::Glitch => {
            reveal_strlit("glitch");
            assert(fingerprint("glitch"@) == 171747906);
        },
        Effect::Matrixrain => {
            reveal_strlit("matrixrain");
            assert(fingerprint("matrixrain"@) == 181719710);
        },
        Effect::Gridshimmer => {
            reveal_strlit("gridshimmer");
            assert(fingerprint("gridshimmer"@) == 188131911);
        },
        Effect::Tsreveal => {
            reveal_strlit("tsreveal");
            assert(fingerprint("tsreveal"@) == 178418008);
        },
        Effect::Liveclock => {
            reveal_strlit("liveclock");
            assert(fingerprint("liveclock"@) == 176830009);
        },
        Effect::Onlinebreathe => {
            reveal_strlit("onlinebreathe");
            assert(fingerprint("onlinebreathe"@) == 166871913);
        },
        Effect::Unreadcomet => {
            reveal_strlit("unreadcomet");
            assert(fingerprint("unreadcomet"@) == 191525311);
        },
    }
}

/// No two effects have the same name.
pub proof fn law_names_differ(left: Effect, right: Effect)
    ensures
        id_of(left) == id_of(right) <==> left == right,
{
    lemma_fingerprint(left);
    lemma_fingerprint(right);
}

impl Effect {
    pub fn id(self) -> (id: &'static str)
        ensures
            id@ == id_of(self),
    {
        match self {
            Effect::Typewriter => "typewriter",
            Effect::Decode => "decode",
            Effect::Lineprint => "lineprint",
            Effect::Fadeup => "fadeup",
            Effect::Instantcursor => "instantcursor",
            Effect::Borderdraw => "borderdraw",
            Effect::Entrynone => "entrynone",
            Effect::Invert => "invert",
            Effect::Ticksweep => "ticksweep",
            Effect::Sendspin => "sendspin",
            Effect::Sendnone => "sendnone",
            Effect::Wipe => "wipe",
            Effect::Crossfade => "crossfade",
            Effect::Cascade => "cascade",
            Effect::Switchnone => "switchnone",
            Effect::Reactburst => "reactburst",
            Effect::Reactroll => "reactroll",
            Effect::Receiptdraw => "receiptdraw",
            Effect::Editripple => "editripple",
            Effect::Deletedissolve => "deletedissolve",
            Effect::Braille => "braille",
            Effect::Ellipsis => "ellipsis",
            Effect::Badgepop => "badgepop",
            Effect::Badgeroll => "badgeroll",
            Effect::Badgepulse => "badgepulse",
            Effect::Bellshake => "bellshake",
            Effect::Asciiload => "asciiload",
            Effect::Selbaron => "selbaron",
            Effect::Jumprocket => "jumprocket",
            Effect::Unreaddivider => "unreaddivider",
            Effect::Datefloat => "datefloat",
            Effect::Chargesend => "chargesend",
            Effect::Attachunfold => "attachunfold",
            Effect::Equalizer => "equalizer",
            Effect::Bootlog => "bootlog",
            Effect::Phosphorburn => "phosphorburn",
            Effect::Flicker => "flicker",
            Effect::Scanlines => "scanlines",
            Effect::Vignette => "vignette",
            Effect::Staticerror => "staticerror",
            Effect::Cursorcomet => "cursorcomet",
            Effect::Thememorph => "thememorph",
            Effect::Poweron => "poweron",
            Effect::Scansweep => "scansweep",
            Effect::Composercursor => "composercursor",
            Effect::Focusdim => "focusdim",
            Effect::Hovertrace => "hovertrace",
            Effect::Glitch => "glitch",
            Effect::Matrixrain => "matrixrain",
            Effect::Gridshimmer => "gridshimmer",
            Effect::Tsreveal => "tsreveal",
            Effect::Liveclock => "liveclock",
            Effect::Onlinebreathe => "onlinebreathe",
            Effect::Unreadcomet => "unreadcomet",
        }
    }

    fn description(self) -> (text: &'static str)
        ensures
            text@ == description_of(self),
    {
        match self {
            Effect::Typewriter => TYPEWRITER_TEXT,
            Effect::Decode => DECODE_TEXT,
            Effect::Lineprint => LINEPRINT_TEXT,
            Effect::Fadeup => FADEUP_TEXT,
            Effect::Instantcursor => INSTANTCURSOR_TEXT,
            Effect::Borderdraw => BORDERDRAW_TEXT,
            Effect::Entrynone => ENTRYNONE_TEXT,
            Effect::Invert => INVERT_TEXT,
            Effect::Ticksweep => TICKSWEEP_TEXT,
            Effect::Sendspin => SENDSPIN_TEXT,
            Effect::Sendnone => SENDNONE_TEXT,
            Effect::Wipe => WIPE_TEXT,
            Effect::Crossfade => CROSSFADE_TEXT,
            Effect::Cascade => CASCADE_TEXT,
            Effect::Switchnone => SWITCHNONE_TEXT,
            Effect::Reactburst => REACTBURST_TEXT,
            Effect::Reactroll => REACTROLL_TEXT,
            Effect::Receiptdraw => RECEIPTDRAW_TEXT,
            Effect::Editripple => EDITRIPPLE_TEXT,
            Effect::Deletedissolve => DELETEDISSOLVE_TEXT,
            Effect::Braille => BRAILLE_TEXT,
            Effect::Ellipsis => ELLIPSIS_TEXT,
            Effect::Badgepop => BADGEPOP_TEXT,
            Effect::Badgeroll => BADGEROLL_TEXT,
            Effect::Badgepulse => BADGEPULSE_TEXT,
            Effect::Bellshake => BELLSHAKE_TEXT,
            Effect::Asciiload => ASCIILOAD_TEXT,
            Effect::Selbaron => SELBARON_TEXT,
            Effect::Jumprocket => JUMPROCKET_TEXT,
            Effect::Unreaddivider => UNREADDIVIDER_TEXT,
            Effect::Datefloat => DATEFLOAT_TEXT,
            Effect::Chargesend => CHARGESEND_TEXT,
            Effect::Attachunfold => ATTACHUNFOLD_TEXT,
            Effect::Equalizer => EQUALIZER_TEXT,
            Effect::Bootlog => BOOTLOG_TEXT,
            Effect::Phosphorburn => PHOSPHORBURN_TEXT,
            Effect::Flicker => FLICKER_TEXT,
            Effect::Scanlines => SCANLINES_TEXT,
            Effect::Vignette => VIGNETTE_TEXT,
            Effect::Staticerror => STATICERROR_TEXT,
            Effect::Cursorcomet => CURSORCOMET_TEXT,
            Effect::Thememorph => THEMEMORPH_TEXT,
            Effect::Poweron => POWERON_TEXT,
            Effect::Scansweep => SCANSWEEP_TEXT,
            Effect::Composercursor => COMPOSERCURSOR_TEXT,
            Effect::Focusdim => FOCUSDIM_TEXT,
            Effect::Hovertrace => HOVERTRACE_TEXT,
            Effect::Glitch => GLITCH_TEXT,
            Effect::Matrixrain => MATRIXRAIN_TEXT,
            Effect::Gridshimmer => GRIDSHIMMER_TEXT,
            Effect::Tsreveal => TSREVEAL_TEXT,
            Effect::Liveclock => LIVECLOCK_TEXT,
            Effect::Onlinebreathe => ONLINEBREATHE_TEXT,
            Effect::Unreadcomet => UNREADCOMET_TEXT,
        }
    }

    pub fn group(self) -> (group: Option<RadioGroup>)
        ensures
            group == group_of(self),
    {
        match self {
            Effect::Typewriter
            | Effect::Decode
            | Effect::Lineprint
            | Effect::Fadeup
            | Effect::Instantcursor
            | Effect::Borderdraw
            | Effect::Entrynone => Some(RadioGroup::Entry),
            Effect::Invert
            | Effect::Ticksweep
            | Effect::Sendspin
            | Effect::Sendnone => Some(RadioGroup::Send),
            Effect::Wipe
            | Effect::Crossfade
            | Effect::Cascade
            | Effect::Switchnone => Some(RadioGroup::Switch),
            _ => None,
        }
    }

    /// The place of the effect among all.
    pub fn index(self) -> (index: usize)
        ensures
            index == index_of(self),
            index < EFFECT_COUNT,
    {
        match self {
            Effect::Typewriter => 0,
            Effect::Decode => 1,
            Effect::Lineprint => 2,
            Effect::Fadeup => 3,
            Effect::Instantcursor => 4,
            Effect::Borderdraw => 5,
            Effect::Entrynone => 6,
            Effect::Invert => 7,
            Effect::Ticksweep => 8,
            Effect::Sendspin => 9,
            Effect::Sendnone => 10,
            Effect::Wipe => 11,
            Effect::Crossfade => 12,
            Effect::Cascade => 13,
            Effect::Switchnone => 14,
            Effect::Reactburst => 15,
            Effect::Reactroll => 16,
            Effect::Receiptdraw => 17,
            Effect::Editripple => 18,
            Effect::Deletedissolve => 19,
            Effect::Braille => 20,
            Effect::Ellipsis => 21,
            Effect::Badgepop => 22,
            Effect::Badgeroll => 23,
            Effect::Badgepulse => 24,
            Effect::Bellshake => 25,
            Effect::Asciiload => 26,
            Effect::Selbaron => 27,
            Effect::Jumprocket => 28,
            Effect::Unreaddivider => 29,
            Effect::Datefloat => 30,
            Effect::Chargesend => 31,
            Effect::Attachunfold => 32,
            Effect::Equalizer => 33,
            Effect::Bootlog => 34,
            Effect::Phosphorburn => 35,
            Effect::Flicker => 36,
            Effect::Scanlines => 37,
            Effect::Vignette => 38,
            Effect::Staticerror => 39,
            Effect::Cursorcomet => 40,
            Effect::Thememorph => 41,
            Effect::Poweron => 42,
            Effect::Scansweep => 43,
            Effect::Composercursor => 44,
            Effect::Focusdim => 45,
            Effect::Hovertrace => 46,
            Effect::Glitch => 47,
            Effect::Matrixrain => 48,
            Effect::Gridshimmer => 49,
            Effect::Tsreveal => 50,
            Effect::Liveclock => 51,
            Effect::Onlinebreathe => 52,
            Effect::Unreadcomet => 53,
        }
    }

    /// The effect at a place.
    pub fn at(index: usize) -> (effect: Effect)
        requires
            index < EFFECT_COUNT,
        ensures
            effect == effect_at(index as int),
            index_of(effect) == index,
    {
        match index {
            0 => Effect::Typewriter,
            1 => Effect::Decode,
            2 => Effect::Lineprint,
            3 => Effect::Fadeup,
            4 => Effect::Instantcursor,
            5 => Effect::Borderdraw,
            6 => Effect::Entrynone,
            7 => Effect::Invert,
            8 => Effect::Ticksweep,
            9 => Effect::Sendspin,
            10 => Effect::Sendnone,
            11 => Effect::Wipe,
            12 => Effect::Crossfade,
            13 => Effect::Cascade,
            14 => Effect::Switchnone,
            15 => Effect::Reactburst,
            16 => Effect::Reactroll,
            17 => Effect::Receiptdraw,
            18 => Effect::Editripple,
            19 => Effect::Deletedissolve,
            20 => Effect::Braille,
            21 => Effect::Ellipsis,
            22 => Effect::Badgepop,
            23 => Effect::Badgeroll,
            24 => Effect::Badgepulse,
            25 => Effect::Bellshake,
            26 => Effect::Asciiload,
            27 => Effect::Selbaron,
            28 => Effect::Jumprocket,
            29 => Effect::Unreaddivider,
            30 => Effect::Datefloat,
            31 => Effect::Chargesend,
            32 => Effect::Attachunfold,
            33 => Effect::Equalizer,
            34 => Effect::Bootlog,
            35 => Effect::Phosphorburn,
            36 => Effect::Flicker,
            37 => Effect::Scanlines,
            38 => Effect::Vignette,
            39 => Effect::Staticerror,
            40 => Effect::Cursorcomet,
            41 => Effect::Thememorph,
            42 => Effect::Poweron,
            43 => Effect::Scansweep,
            44 => Effect::Composercursor,
            45 => Effect::Focusdim,
            46 => Effect::Hovertrace,
            47 => Effect::Glitch,
            48 => Effect::Matrixrain,
            49 => Effect::Gridshimmer,
            50 => Effect::Tsreveal,
            51 => Effect::Liveclock,
            52 => Effect::Onlinebreathe,
            _ => Effect::Unreadcomet,
        }
    }

    /// The effect with a name.
    pub fn from_id(id: &str) -> (effect: Option<Effect>)
        ensures
            match effect {
                Some(effect) => id_of(effect) == id@,
                None => forall|effect: Effect| #[trigger] id_of(effect) != id@,
            },
    {
        let mut i: usize = 0;
        while i < EFFECT_COUNT
            invariant
                i <= EFFECT_COUNT,
                forall|j: int| 0 <= j < i ==> id_of(#[trigger] effect_at(j)) != id@,
            decreases EFFECT_COUNT - i,
        {
            let effect = Effect::at(i);
            if same_text(effect.id(), id) {
                return Some(effect);
            }
            i += 1;
        }
        assert forall|effect: Effect| #[trigger] id_of(effect) != id@ by {
            lemma_places(effect);
            assert(id_of(effect_at(index_of(effect))) != id@);
        }
        None
    }

    /// What the settings say of the effect.
    pub fn spec_sheet(self) -> (sheet: EffectSpec)
        ensures
            sheet.id@ == id_of(self),
            sheet.label@ == id_of(self),
            sheet.description@ == description_of(self),
            sheet.group == group_of(self),
    {
        EffectSpec {
            id: self.id(),
            label: self.id(),
            description: self.description(),
            group: self.group(),
        }
    }
}

/// All effects, in the order in which the settings list them.
pub fn effects() -> (sheets: Vec<EffectSpec>)
    ensures
        sheets@.len() == EFFECT_COUNT,
        forall|i: int|
            0 <= i < EFFECT_COUNT ==> {
                &&& (#[trigger] sheets@[i]).id@ == id_of(effect_at(i))
                &&& sheets@[i].label@ == id_of(effect_at(i))
                &&& sheets@[i].description@ == description_of(effect_at(i))
                &&& sheets@[i].group == group_of(effect_at(i))
            },
{
    let mut sheets: Vec<EffectSpec> = Vec::new();
    let mut i: usize = 0;
    while i < EFFECT_COUNT
        invariant
            i <= EFFECT_COUNT,
            sheets@.len() == i,
            forall|j: int|
                0 <= j < i ==> {
                    &&& (#[trigger] sheets@[j]).id@ == id_of(effect_at(j))
                    &&& sheets@[j].label@ == id_of(effect_at(j))
                    &&& sheets@[j].description@ == description_of(effect_at(j))
                    &&& sheets@[j].group == group_of(effect_at(j))
                },
        decreases EFFECT_COUNT - i,
    {
        sheets.push(Effect::at(i).spec_sheet());
        i += 1;
    }
    sheets
}

/// The effects of a group.
pub open spec fn members(group: RadioGroup) -> Seq<Effect> {
    match group {
        RadioGroup::Entry => seq![
            Effect::Typewriter,
            Effect::Decode,
            Effect::Lineprint,
            Effect::Fadeup,
            Effect::Instantcursor,
            Effect::Borderdraw,
            Effect::Entrynone,
        ],
        RadioGroup::Send => seq![
            Effect::Invert,
            Effect::Ticksweep,
            Effect::Sendspin,
            Effect::Sendnone,
        ],
        RadioGroup::Switch => seq![
            Effect::Wipe,
            Effect::Crossfade,
            Effect::Cascade,
            Effect::Switchnone,
        ],
    }
}

pub fn group_ids(group: RadioGroup) -> (effects: Vec<Effect>)
    ensures
        effects@ == members(group),
{
    match group {
        RadioGroup::Entry => vec![
            Effect::Typewriter,
            Effect::Decode,
            Effect::Lineprint,
            Effect::Fadeup,
            Effect::Instantcursor,
            Effect::Borderdraw,
            Effect::Entrynone,
        ],
        RadioGroup::Send => vec![
            Effect::Invert,
            Effect::Ticksweep,
            Effect::Sendspin,
            Effect::Sendnone,
        ],
        RadioGroup::Switch => vec![
            Effect::Wipe,
            Effect::Crossfade,
            Effect::Cascade,
            Effect::Switchnone,
        ],
    }
}

/// The effects of a group are those that belong to it.
pub proof fn law_groups_are_complete(group: RadioGroup, effect: Effect)
    ensures
        members(group).contains(effect) <==> group_of(effect) == Some(group),
{
    let all = members(group);
    match group {
        RadioGroup::Entry => {
            assert(all[0] == Effect::Typewriter);
            assert(all[1] == Effect::Decode);
            assert(all[2] == Effect::Lineprint);
            assert(all[3] == Effect::Fadeup);
            assert(all[4] == Effect::Instantcursor);
            assert(all[5] == Effect::Borderdraw);
            assert(all[6] == Effect::Entrynone);
        },
        RadioGroup::Send => {
            assert(all[0] == Effect::Invert);
            assert(all[1] == Effect::Ticksweep);
            assert(all[2] == Effect::Sendspin);
            assert(all[3] == Effect::Sendnone);
        },
        RadioGroup::Switch => {
            assert(all[0] == Effect::Wipe);
            assert(all[1] == Effect::Crossfade);
            assert(all[2] == Effect::Cascade);
            assert(all[3] == Effect::Switchnone);
        },
    }
    if all.contains(effect) {
        let at = all.index_of(effect);
        assert(all[at] == effect);
    }
}

} // verus!
