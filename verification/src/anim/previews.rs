//! How an effect is shown on its own.

use vstd::prelude::*;

use crate::anim::choices::{Entry, Run};
use crate::anim::effects::{id_of, Effect};
use crate::anim::ticks::Effects;

verus! {

/// What is done to the label on which an effect is shown.
pub enum Demo {
    /// The effect is that there is none.
    Nothing,
    /// A message comes in. Where it is typed or read it says "incoming message".
    Enters(Entry),
    Marked(Run),
    /// A message goes out.
    Sent,
    /// A message is being sent.
    Sending,
    Receipt,
    Edited,
    Deleted,
    /// One unread message becomes two.
    Badge,
    Mentioned,
    Loading,
    /// Marta is typing.
    Typing,
    Jump,
    Divider,
    DateChip,
    Charge,
    /// A menu of three choices is open for a second.
    Menu,
    /// Five bars dance.
    Bars,
    Idle,
    Unfocused,
    Reacted,
    Seen,
    Comet,
    /// The label says "12:34:56".
    Clock,
}

/// How an effect is shown on its own.
pub enum Preview {
    /// As when the window opens.
    Launch,
    /// As when the theme changes.
    ThemeSwitch,
    /// As when something fails.
    ErrorFlash,
    /// Behind an empty list: falling signs or a grid.
    Rain,
    Grid,
    /// On a label.
    Label { text: &'static str, demo: Demo },
}

/// What the label says on which an effect is shown.
pub open spec fn label_of(effect: Effect) -> Seq<char> {
    match effect {
        Effect::Badgepop | Effect::Badgeroll | Effect::Badgepulse => "2"@,
        Effect::Receiptdraw => "✓"@,
        Effect::Jumprocket => "▼"@,
        Effect::Composercursor | Effect::Cursorcomet => "▌"@,
        Effect::Asciiload => "[▓▓░░░░░░] photo"@,
        Effect::Onlinebreathe | Effect::Unreadcomet => "·"@,
        _ => "Motion Lab preview"@,
    }
}

/// What is done to the label on which an effect is shown.
pub open spec fn demo_of(effect: Effect) -> Demo {
    match effect {
        Effect::Entrynone => Demo::Nothing,
        Effect::Typewriter => Demo::Enters(Entry::Typed),
        Effect::Decode => Demo::Enters(Entry::Decoded),
        Effect::Lineprint => Demo::Enters(Entry::Revealed),
        Effect::Instantcursor => Demo::Enters(Entry::Cursor),
        Effect::Fadeup => Demo::Marked(Run { class: "omg-run-fadeup", time: 180 }),
        Effect::Borderdraw => Demo::Marked(Run { class: "omg-run-borderdraw", time: 520 }),
        Effect::Phosphorburn => Demo::Marked(Run { class: "omg-run-phosphorburn", time: 1120 }),
        Effect::Invert | Effect::Ticksweep | Effect::Sendnone => Demo::Sent,
        Effect::Sendspin => Demo::Sending,
        Effect::Receiptdraw => Demo::Receipt,
        Effect::Editripple => Demo::Edited,
        Effect::Deletedissolve => Demo::Deleted,
        Effect::Badgepop | Effect::Badgeroll | Effect::Badgepulse => Demo::Badge,
        Effect::Bellshake => Demo::Mentioned,
        Effect::Asciiload => Demo::Loading,
        Effect::Braille | Effect::Ellipsis => Demo::Typing,
        Effect::Jumprocket => Demo::Jump,
        Effect::Unreaddivider => Demo::Divider,
        Effect::Datefloat => Demo::DateChip,
        Effect::Chargesend => Demo::Charge,
        Effect::Attachunfold => Demo::Menu,
        Effect::Equalizer => Demo::Bars,
        Effect::Cursorcomet | Effect::Composercursor => Demo::Idle,
        Effect::Focusdim => Demo::Unfocused,
        Effect::Wipe => Demo::Marked(Run { class: "omg-run-wipe", time: 280 }),
        Effect::Crossfade | Effect::Cascade | Effect::Switchnone => Demo::Marked(
            Run { class: "omg-run-crossfade", time: 280 },
        ),
        Effect::Reactburst | Effect::Reactroll => Demo::Reacted,
        Effect::Onlinebreathe => Demo::Seen,
        Effect::Unreadcomet => Demo::Comet,
        Effect::Liveclock => Demo::Clock,
        Effect::Hovertrace | Effect::Glitch | Effect::Tsreveal => Demo::Marked(
            Run { class: "omg-run-preview-pulse", time: 1000 },
        ),
        _ => Demo::Marked(Run { class: "omg-run-selbaron", time: 1000 }),
    }
}

/// Whether an effect is shown on a label.
pub open spec fn on_a_label(effect: Effect) -> bool {
    match effect {
        Effect::Bootlog
        | Effect::Poweron
        | Effect::Scanlines
        | Effect::Vignette
        | Effect::Flicker
        | Effect::Scansweep
        | Effect::Thememorph
        | Effect::Staticerror
        | Effect::Matrixrain
        | Effect::Gridshimmer => false,
        _ => true,
    }
}

fn preview_text(effect: Effect) -> (text: &'static str)
    ensures
        text@ == label_of(effect),
{
    match effect {
        Effect::Badgepop | Effect::Badgeroll | Effect::Badgepulse => "2",
        Effect::Receiptdraw => "✓",
        Effect::Jumprocket => "▼",
        Effect::Composercursor | Effect::Cursorcomet => "▌",
        Effect::Asciiload => "[▓▓░░░░░░] photo",
        Effect::Onlinebreathe | Effect::Unreadcomet => "·",
        _ => "Motion Lab preview",
    }
}

fn preview_widget(effect: Effect) -> (demo: Demo)
    ensures
        demo == demo_of(effect),
{
    match effect {
        Effect::Entrynone => Demo::Nothing,
        Effect::Typewriter => Demo::Enters(Entry::Typed),
        Effect::Decode => Demo::Enters(Entry::Decoded),
        Effect::Lineprint => Demo::Enters(Entry::Revealed),
        Effect::Instantcursor => Demo::Enters(Entry::Cursor),
        Effect::Fadeup => Demo::Marked(Run { class: "omg-run-fadeup", time: 180 }),
        Effect::Borderdraw => Demo::Marked(Run { class: "omg-run-borderdraw", time: 520 }),
        Effect::Phosphorburn => Demo::Marked(Run { class: "omg-run-phosphorburn", time: 1120 }),
        Effect::Invert | Effect::Ticksweep | Effect::Sendnone => Demo::Sent,
        Effect::Sendspin => Demo::Sending,
        Effect::Receiptdraw => Demo::Receipt,
        Effect::Editripple => Demo::Edited,
        Effect::Deletedissolve => Demo::Deleted,
        Effect::Badgepop | Effect::Badgeroll | Effect::Badgepulse => Demo::Badge,
        Effect::Bellshake => Demo::Mentioned,
        Effect::Asciiload => Demo::Loading,
        Effect::Braille | Effect::Ellipsis => Demo::Typing,
        Effect::Jumprocket => Demo::Jump,
        Effect::Unreaddivider => Demo::Divider,
        Effect::Datefloat => Demo::DateChip,
        Effect::Chargesend => Demo::Charge,
        Effect::Attachunfold => Demo::Menu,
        Effect::Equalizer => Demo::Bars,
        Effect::Cursorcomet | Effect::Composercursor => Demo::Idle,
        Effect::Focusdim => Demo::Unfocused,
        Effect::Wipe => Demo::Marked(Run { class: "omg-run-wipe", time: 280 }),
        Effect::Crossfade | Effect::Cascade | Effect::Switchnone => Demo::Marked(
            Run { class: "omg-run-crossfade", time: 280 },
        ),
        Effect::Reactburst | Effect::Reactroll => Demo::Reacted,
        Effect::Onlinebreathe => Demo::Seen,
        Effect::Unreadcomet => Demo::Comet,
        Effect::Liveclock => Demo::Clock,
        Effect::Hovertrace | Effect::Glitch | Effect::Tsreveal => Demo::Marked(
            Run { class: "omg-run-preview-pulse", time: 1000 },
        ),
        _ => Demo::Marked(Run { class: "omg-run-selbaron", time: 1000 }),
    }
}

/// Whether this is how an effect is shown on its own.
pub open spec fn shows_alone(plan: Preview, effect: Effect) -> bool {
    match effect {
        Effect::Bootlog
        | Effect::Poweron
        | Effect::Scanlines
        | Effect::Vignette
        | Effect::Flicker => plan == Preview::Launch,
        Effect::Scansweep | Effect::Thememorph => plan == Preview::ThemeSwitch,
        Effect::Staticerror => plan == Preview::ErrorFlash,
        Effect::Matrixrain => plan == Preview::Rain,
        Effect::Gridshimmer => plan == Preview::Grid,
        _ => plan matches Preview::Label { text, demo } && text@ == label_of(effect) && demo
            == demo_of(effect),
    }
}

/// How an effect is shown on its own.
pub fn preview_plan(effect: Effect) -> (plan: Preview)
    ensures
        shows_alone(plan, effect),
{
    match effect {
        Effect::Bootlog
        | Effect::Poweron
        | Effect::Scanlines
        | Effect::Vignette
        | Effect::Flicker => Preview::Launch,
        Effect::Scansweep | Effect::Thememorph => Preview::ThemeSwitch,
        Effect::Staticerror => Preview::ErrorFlash,
        Effect::Matrixrain => Preview::Rain,
        Effect::Gridshimmer => Preview::Grid,
        _ => Preview::Label { text: preview_text(effect), demo: preview_widget(effect) },
    }
}

/// A preview that has begun. It ends after 1300 milliseconds.
pub struct PreviewRun {
    pub serial: u64,
    pub effect: Effect,
    pub plan: Preview,
}

impl Effects {
    /// An effect is to be shown on its own, in place of one that is being shown.
    /// Nothing happens where there is no such effect or nothing may move, and none
    /// begins where there is no room for it. Returns the number of the preview that
    /// ended, and the one that began.
    pub fn preview(&mut self, id: &str, has_room: bool) -> (change: (
        Option<u64>,
        Option<PreviewRun>,
    ))
        ensures
            ({
                let known = exists|effect: Effect| #[trigger] id_of(effect) == id@;
                if !known || !old(self).animations_enabled {
                    change.0 is None && change.1 is None && *final(self) == *old(self)
                } else {
                    &&& change.0 == old(self).preview
                    &&& change.1 is Some <==> has_room
                    &&& change.1 matches Some(run) ==> {
                        &&& run.serial == old(self).next_preview.wrapping_add(1)
                        &&& id_of(run.effect) == id@
                        &&& shows_alone(run.plan, run.effect)
                    }
                    &&& *final(self) == (match change.1 {
                        Some(run) => Effects {
                            preview: Some(run.serial),
                            next_preview: run.serial,
                            ..*old(self)
                        },
                        None => Effects { preview: None, ..*old(self) },
                    })
                }
            }),
    {
        match Effect::from_id(id) {
            None => (None, None),
            Some(effect) => {
                assert(id_of(effect) == id@);
                let (ended, begun) = self.begin_preview(has_room);
                match begun {
                    Some(serial) => (
                        ended,
                        Some(PreviewRun { serial, effect, plan: preview_plan(effect) }),
                    ),
                    None => (ended, None),
                }
            },
        }
    }
}

/// Every effect that is shown on a label does something to it, but for the one that
/// stands for no effect.
pub proof fn law_every_effect_can_be_shown(effect: Effect)
    requires
        on_a_label(effect),
    ensures
        demo_of(effect) is Nothing <==> effect is Entrynone,
{
}

} // verus!
