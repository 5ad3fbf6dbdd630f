//! What happens in the window, and what the effects make of it.

use vstd::prelude::*;

use crate::anim::effects::Effect;
use crate::anim::ticks::{begins, stops, Begun, Effects};
use crate::text::{decimal, push_integer};

verus! {

/// A class that a widget bears for a while, in milliseconds.
#[derive(Debug, Clone, Copy)]
pub struct Run {
    pub class: &'static str,
    pub time: u64,
}

/// Whether a widget bears a class for a time.
pub open spec fn is_run(run: Run, class: Seq<char>, time: int) -> bool {
    run.class@ == class && run.time == time
}

/// How a message comes in.
pub enum Entry {
    /// Its characters are typed out.
    Typed,
    /// Its characters come out of noise.
    Decoded,
    /// It slides down.
    Revealed,
    /// A cursor blinks behind it.
    Cursor,
    Marked(Run),
}

/// What the effects make of a message that came in.
pub struct Arrival {
    pub entry: Option<Entry>,
    pub burn: Option<Run>,
}

/// How a message goes out.
pub enum Departure {
    Marked(Run),
    /// A line sweeps below it.
    Sweep,
}

/// How another chat is shown.
pub enum Passage {
    /// A shade wipes over the messages, in place of an earlier one.
    Wipe { serial: u64, replaced: Option<u64> },
    Marked(Run),
    /// The messages come one after the other.
    Cascade,
}

/// What the effects make of a number of unread messages.
pub struct BadgeChange {
    pub pop: Option<Run>,
    pub roll: Option<Run>,
    /// The number that rolls away.
    pub rolling: Option<String>,
    pub pulse: bool,
}

/// What the effects make of a message that was read.
pub struct Receipt {
    pub first: &'static str,
    pub second: &'static str,
    /// When the second takes the place of the first, in milliseconds.
    pub change: u64,
    pub run: Run,
}

/// What the bars beside the composer do.
pub enum Bars {
    Dance(Begun),
    Rest(Vec<u64>),
    Nothing,
}

/// The effect by which a message comes in.
pub open spec fn entry_of(effects: Effects, outgoing: bool, is_live: bool) -> Option<Effect> {
    if !is_live || outgoing {
        None
    } else if effects.shows(Effect::Typewriter) {
        Some(Effect::Typewriter)
    } else if effects.shows(Effect::Decode) {
        Some(Effect::Decode)
    } else if effects.shows(Effect::Lineprint) {
        Some(Effect::Lineprint)
    } else if effects.shows(Effect::Fadeup) {
        Some(Effect::Fadeup)
    } else if effects.shows(Effect::Instantcursor) {
        Some(Effect::Instantcursor)
    } else if effects.shows(Effect::Borderdraw) {
        Some(Effect::Borderdraw)
    } else {
        None
    }
}

/// Whether an entry is the one of an effect.
pub open spec fn is_entry(entry: Option<Entry>, effect: Option<Effect>) -> bool {
    match effect {
        Some(Effect::Typewriter) => entry == Some(Entry::Typed),
        Some(Effect::Decode) => entry == Some(Entry::Decoded),
        Some(Effect::Lineprint) => entry == Some(Entry::Revealed),
        Some(Effect::Instantcursor) => entry == Some(Entry::Cursor),
        Some(Effect::Fadeup) => entry matches Some(Entry::Marked(run)) && is_run(
            run,
            "omg-run-fadeup"@,
            180,
        ),
        Some(Effect::Borderdraw) => entry matches Some(Entry::Marked(run)) && is_run(
            run,
            "omg-run-borderdraw"@,
            520,
        ),
        _ => entry is None,
    }
}

/// Whether there is a run exactly where a condition holds.
pub open spec fn runs_if(run: Option<Run>, condition: bool, class: Seq<char>, time: int) -> bool {
    match run {
        Some(run) => condition && is_run(run, class, time),
        None => !condition,
    }
}

/// When each of several widgets begins to come in, in milliseconds.
pub fn delays(count: usize, step: u64) -> (times: Vec<u64>)
    requires
        count * step <= u64::MAX,
    ensures
        times@.len() == count,
        forall|i: int| 0 <= i < count ==> #[trigger] times@[i] == i * step,
{
    let mut times: Vec<u64> = Vec::new();
    let mut i: usize = 0;
    while i < count
        invariant
            i <= count,
            count * step <= u64::MAX,
            times@.len() == i,
            forall|j: int| 0 <= j < i ==> #[trigger] times@[j] == j * step,
        decreases count - i,
    {
        proof {
            assert(0 <= i * step <= count * step) by (nonlinear_arith)
                requires
                    i <= count,
            ;
        }
        times.push(i as u64 * step);
        i += 1;
    }
    times
}

impl Effects {
    /// The run where the effect is to be seen.
    fn run(&self, effect: Effect, class: &'static str, time: u64) -> (run: Option<Run>)
        requires
            self.well_formed(),
        ensures
            runs_if(run, self.shows(effect), class@, time as int),
    {
        if self.on(effect) {
            Some(Run { class, time })
        } else {
            None
        }
    }

    /// A message was added to the list.
    pub fn message_added(&self, outgoing: bool, is_live: bool) -> (arrival: Arrival)
        requires
            self.well_formed(),
        ensures
            is_entry(arrival.entry, entry_of(*self, outgoing, is_live)),
            runs_if(
                arrival.burn,
                is_live && self.shows(Effect::Phosphorburn),
                "omg-run-phosphorburn"@,
                1120,
            ),
    {
        let mut entry: Option<Entry> = None;
        if is_live && !outgoing {
            if self.on(Effect::Typewriter) {
                entry = Some(Entry::Typed);
            } else if self.on(Effect::Decode) {
                entry = Some(Entry::Decoded);
            } else if self.on(Effect::Lineprint) {
                entry = Some(Entry::Revealed);
            } else if self.on(Effect::Fadeup) {
                entry = Some(Entry::Marked(Run { class: "omg-run-fadeup", time: 180 }));
            } else if self.on(Effect::Instantcursor) {
                entry = Some(Entry::Cursor);
            } else if self.on(Effect::Borderdraw) {
                entry = Some(Entry::Marked(Run { class: "omg-run-borderdraw", time: 520 }));
            }
        }
        let burn = if is_live {
            self.run(Effect::Phosphorburn, "omg-run-phosphorburn", 1120)
        } else {
            None
        };
        Arrival { entry, burn }
    }

    /// A message of one's own was added to the list.
    pub fn message_sent(&self) -> (departure: Option<Departure>)
        requires
            self.well_formed(),
        ensures
            if self.shows(Effect::Invert) {
                departure matches Some(Departure::Marked(run)) && is_run(
                    run,
                    "omg-run-invert"@,
                    110,
                )
            } else if self.shows(Effect::Ticksweep) {
                departure == Some(Departure::Sweep)
            } else {
                departure is None
            },
    {
        if self.on(Effect::Invert) {
            Some(Departure::Marked(Run { class: "omg-run-invert", time: 110 }))
        } else if self.on(Effect::Ticksweep) {
            Some(Departure::Sweep)
        } else {
            None
        }
    }

    /// Another chat is shown. A shade needs something to lie over.
    pub fn chat_switched(&mut self, has_overlay: bool) -> (passage: Option<Passage>)
        requires
            old(self).well_formed(),
        ensures
            if old(self).shows(Effect::Wipe) {
                if has_overlay {
                    passage == Some(
                        Passage::Wipe {
                            serial: old(self).next_wipe.wrapping_add(1),
                            replaced: old(self).wipe,
                        },
                    )
                } else {
                    passage is None
                }
            } else if old(self).shows(Effect::Crossfade) {
                passage matches Some(Passage::Marked(run)) && is_run(
                    run,
                    "omg-run-crossfade"@,
                    120,
                )
            } else if old(self).shows(Effect::Cascade) {
                passage == Some(Passage::Cascade)
            } else {
                passage is None
            },
            *final(self) == (match passage {
                Some(Passage::Wipe { serial, replaced }) => Effects {
                    wipe: Some(serial),
                    next_wipe: serial,
                    ..*old(self)
                },
                _ => *old(self),
            }),
    {
        if self.on(Effect::Wipe) {
            if !has_overlay {
                return None;
            }
            let replaced = self.wipe;
            let serial: u64 = self.next_wipe.wrapping_add(1);
            self.next_wipe = serial;
            self.wipe = Some(serial);
            Some(Passage::Wipe { serial, replaced })
        } else if self.on(Effect::Crossfade) {
            Some(Passage::Marked(Run { class: "omg-run-crossfade", time: 120 }))
        } else if self.on(Effect::Cascade) {
            Some(Passage::Cascade)
        } else {
            None
        }
    }

    /// A shade is gone. Returns whether it was the latest.
    pub fn wipe_finished(&mut self, serial: u64) -> (latest: bool)
        ensures
            latest == (old(self).wipe == Some(serial)),
            *final(self) == (Effects {
                wipe: if latest { None } else { old(self).wipe },
                ..*old(self)
            }),
    {
        let latest = match self.wipe {
            Some(current) => current == serial,
            None => false,
        };
        if latest {
            self.wipe = None;
        }
        latest
    }

    /// Another chat is selected in the sidebar.
    pub fn sidebar_selection_moved(&self) -> (run: Option<Run>)
        requires
            self.well_formed(),
        ensures
            runs_if(run, self.shows(Effect::Selbaron), "omg-run-selected"@, 200),
    {
        self.run(Effect::Selbaron, "omg-run-selected", 200)
    }

    /// The bar beside the selected chat moves. Where none begins to, it is hidden.
    pub fn move_sidebar_indicator(&mut self, indicator: u64) -> (begun: Option<Begun>)
        requires
            old(self).well_formed(),
            old(self).next_tick < u64::MAX,
        ensures
            final(self).well_formed(),
            begun is Some <==> old(self).shows(Effect::Selbaron),
            begun is None ==> *final(self) == *old(self),
            begun is Some ==> begins(*old(self), *final(self), begun->0, indicator, Effect::Selbaron),
    {
        self.tracked_tick(indicator, Effect::Selbaron)
    }

    /// The bar is put beside the selected chat at once, or hidden. Returns the numbers
    /// of the animations that were stopped, and where the bar is.
    pub fn sync_sidebar_indicator(&mut self, indicator: u64, selected: Option<i32>) -> (shown: (
        Vec<u64>,
        Option<i32>,
    ))
        requires
            old(self).well_formed(),
        ensures
            final(self).well_formed(),
            stops(*old(self), *final(self), shown.0@, indicator, Effect::Selbaron),
            shown.1 == (if old(self).shows(Effect::Selbaron) {
                selected
            } else {
                None
            }),
    {
        let stopped = self.stop_matching_ticks(indicator, Effect::Selbaron);
        if self.on(Effect::Selbaron) {
            (stopped, selected)
        } else {
            (stopped, None)
        }
    }

    /// The number of unread messages changed.
    pub fn badge_changed(&self, old_count: i32, new_count: i32) -> (change: Option<BadgeChange>)
        requires
            self.well_formed(),
        ensures
            change is None <==> old_count == new_count,
            change matches Some(change) ==> {
                &&& runs_if(change.pop, self.shows(Effect::Badgepop), "omg-run-badgepop"@, 260)
                &&& runs_if(change.roll, self.shows(Effect::Badgeroll), "omg-run-badgeroll"@, 240)
                &&& change.rolling is Some <==> self.shows(Effect::Badgeroll)
                &&& change.rolling matches Some(text) ==> text@ == decimal(old_count as int)
                &&& change.pulse == (self.shows(Effect::Badgepulse) && new_count > 0)
            },
    {
        if old_count == new_count {
            return None;
        }
        let pop = self.run(Effect::Badgepop, "omg-run-badgepop", 260);
        let roll = self.run(Effect::Badgeroll, "omg-run-badgeroll", 240);
        let rolling = if self.on(Effect::Badgeroll) {
            let mut text = String::new();
            push_integer(&mut text, old_count as i64);
            assert(text@ =~= decimal(old_count as int));
            Some(text)
        } else {
            None
        };
        let pulse = self.on(Effect::Badgepulse) && new_count > 0;
        Some(BadgeChange { pop, roll, rolling, pulse })
    }

    /// A chat got a message that mentions one.
    pub fn mention(&self) -> (run: Option<Run>)
        requires
            self.well_formed(),
        ensures
            runs_if(run, self.shows(Effect::Bellshake), "omg-run-bellshake"@, 420),
    {
        self.run(Effect::Bellshake, "omg-run-bellshake", 420)
    }

    /// A chat in the background got a message.
    pub fn unread_comet(&mut self, comet: u64) -> (begun: Option<Begun>)
        requires
            old(self).well_formed(),
            old(self).next_tick < u64::MAX,
        ensures
            final(self).well_formed(),
            begun is Some <==> old(self).shows(Effect::Unreadcomet),
            begun is None ==> *final(self) == *old(self),
            begun is Some ==> begins(*old(self), *final(self), begun->0, comet, Effect::Unreadcomet),
    {
        self.tracked_tick(comet, Effect::Unreadcomet)
    }

    /// A reaction was added. Where it bursts, six particles fly for 340 milliseconds.
    pub fn reaction_added(&self) -> (run: Option<Run>)
        requires
            self.well_formed(),
        ensures
            runs_if(run, self.shows(Effect::Reactburst), "omg-run-reactburst"@, 320),
    {
        self.run(Effect::Reactburst, "omg-run-reactburst", 320)
    }

    /// The text of a reaction changes. Where the old one rolls away, the new one comes
    /// in when it is gone.
    pub fn reaction_changed(&self, shown: &str) -> (rolls: Option<(Run, Run)>)
        requires
            self.well_formed(),
        ensures
            rolls is Some <==> self.shows(Effect::Reactroll) && shown@.len() > 0,
            rolls matches Some((out, back)) ==> is_run(out, "omg-run-reactroll"@, 200) && is_run(
                back,
                "omg-run-reactroll-in"@,
                200,
            ),
    {
        if !self.on(Effect::Reactroll) || shown.is_empty() {
            return None;
        }
        Some(
            (
                Run { class: "omg-run-reactroll", time: 200 },
                Run { class: "omg-run-reactroll-in", time: 200 },
            ),
        )
    }

    /// A message was read.
    pub fn receipt_drawn(&self) -> (receipt: Option<Receipt>)
        requires
            self.well_formed(),
        ensures
            receipt is Some <==> self.shows(Effect::Receiptdraw),
            receipt matches Some(receipt) ==> {
                &&& receipt.first@ == "✓"@
                &&& receipt.second@ == "✓✓"@
                &&& receipt.change == 400
                &&& is_run(receipt.run, "omg-run-receipt"@, 820)
            },
    {
        if !self.on(Effect::Receiptdraw) {
            return None;
        }
        Some(
            Receipt {
                first: "✓",
                second: "✓✓",
                change: 400,
                run: Run { class: "omg-run-receipt", time: 820 },
            },
        )
    }

    /// A message was edited.
    pub fn message_edited(&self) -> (run: Option<Run>)
        requires
            self.well_formed(),
        ensures
            runs_if(run, self.shows(Effect::Editripple), "omg-run-editripple"@, 520),
    {
        self.run(Effect::Editripple, "omg-run-editripple", 520)
    }

    /// A message was deleted. Returns the class under which it dissolves.
    pub fn message_deleted(&self) -> (run: Option<Run>)
        requires
            self.well_formed(),
        ensures
            runs_if(run, self.shows(Effect::Deletedissolve), "omg-run-deletedissolve"@, 500),
    {
        self.run(Effect::Deletedissolve, "omg-run-deletedissolve", 500)
    }

    /// The window came to the front or left it. Returns whether it is dimmed.
    pub fn window_focus(&self, active: bool) -> (dim: bool)
        requires
            self.well_formed(),
        ensures
            dim == (self.shows(Effect::Focusdim) && !active),
    {
        self.on(Effect::Focusdim) && !active
    }

    /// Nothing is being written, or something is. Returns whether the cursor is shown,
    /// and whether it has a tail.
    pub fn composer_idle(&self, idle: bool) -> (cursor: (bool, bool))
        requires
            self.well_formed(),
        ensures
            cursor.0 == (idle && self.shows(Effect::Composercursor)),
            cursor.1 == (idle && self.shows(Effect::Cursorcomet)),
    {
        (idle && self.on(Effect::Composercursor), idle && self.on(Effect::Cursorcomet))
    }

    /// The button that leads to the last message was pressed.
    pub fn scroll_to_bottom_pressed(&self) -> (run: Option<Run>)
        requires
            self.well_formed(),
        ensures
            runs_if(run, self.shows(Effect::Jumprocket), "omg-run-jumprocket"@, 420),
    {
        self.run(Effect::Jumprocket, "omg-run-jumprocket", 420)
    }

    /// The line above the unread messages was drawn.
    pub fn unread_divider_added(&self) -> (run: Option<Run>)
        requires
            self.well_formed(),
        ensures
            runs_if(run, self.shows(Effect::Unreaddivider), "omg-run-unreaddivider"@, 420),
    {
        self.run(Effect::Unreaddivider, "omg-run-unreaddivider", 420)
    }

    /// The date above the messages is to be shown or hidden. Returns whether it floats.
    pub fn date_chip(&self, show: bool) -> (visible: bool)
        requires
            self.well_formed(),
        ensures
            visible == (self.shows(Effect::Datefloat) && show),
    {
        self.on(Effect::Datefloat) && show
    }

    /// A message is to be sent. Returns whether the button is charged first, and the
    /// animation of it.
    pub fn send_pressed(&mut self, fill: u64) -> (begun: Option<Begun>)
        requires
            old(self).well_formed(),
            old(self).next_tick < u64::MAX,
        ensures
            final(self).well_formed(),
            begun is Some <==> old(self).shows(Effect::Chargesend),
            begun is None ==> *final(self) == *old(self),
            begun is Some ==> begins(*old(self), *final(self), begun->0, fill, Effect::Chargesend),
    {
        self.tracked_tick(fill, Effect::Chargesend)
    }

    /// The button has been charged for a number of steps. Returns how long to wait
    /// before the next is counted, in milliseconds, where the message is to wait.
    pub fn charging(&self, steps: u32) -> (wait: Option<u64>)
        requires
            self.well_formed(),
        ensures
            wait == (if steps < 24 && self.shows(Effect::Chargesend) {
                Some(25u64)
            } else {
                None
            }),
    {
        if steps < 24 && self.on(Effect::Chargesend) {
            Some(25)
        } else {
            None
        }
    }

    /// The menu of what can be sent was opened. Returns when each of its items comes
    /// in.
    pub fn attach_menu_opened(&self, items: usize) -> (times: Option<Vec<u64>>)
        requires
            self.well_formed(),
            items * 40 <= u64::MAX,
        ensures
            times is Some <==> self.shows(Effect::Attachunfold),
            times matches Some(times) ==> times@.len() == items && forall|i: int|
                0 <= i < items ==> #[trigger] times@[i] == i * 40,
    {
        if !self.on(Effect::Attachunfold) {
            return None;
        }
        Some(delays(items, 40))
    }

    /// Something is being written, or no longer.
    pub fn composer_typing(&mut self, bars: u64, typing: bool) -> (change: Bars)
        requires
            old(self).well_formed(),
            old(self).next_tick < u64::MAX,
        ensures
            final(self).well_formed(),
            match change {
                Bars::Dance(begun) => typing && old(self).shows(Effect::Equalizer) && begins(
                    *old(self),
                    *final(self),
                    begun,
                    bars,
                    Effect::Equalizer,
                ),
                Bars::Rest(stopped) => !typing && stops(
                    *old(self),
                    *final(self),
                    stopped@,
                    bars,
                    Effect::Equalizer,
                ),
                Bars::Nothing => typing && !old(self).shows(Effect::Equalizer) && *final(self)
                    == *old(self),
            },
    {
        if typing {
            match self.tracked_tick(bars, Effect::Equalizer) {
                Some(begun) => Bars::Dance(begun),
                None => Bars::Nothing,
            }
        } else {
            Bars::Rest(self.stop_matching_ticks(bars, Effect::Equalizer))
        }
    }

    /// Someone was seen lately. Returns whether the dot that says so is shown.
    pub fn recent_presence(&self, recent: bool) -> (visible: bool)
        requires
            self.well_formed(),
        ensures
            visible == (recent && self.shows(Effect::Onlinebreathe)),
    {
        recent && self.on(Effect::Onlinebreathe)
    }
}

/// A message that was there before comes in by no effect.
pub proof fn law_old_messages_stand_still(
    effects: Effects,
    outgoing: bool,
    is_live: bool,
    arrival: Arrival,
)
    requires
        !is_live,
        is_entry(arrival.entry, entry_of(effects, outgoing, is_live)),
        runs_if(
            arrival.burn,
            is_live && effects.shows(Effect::Phosphorburn),
            "omg-run-phosphorburn"@,
            1120,
        ),
    ensures
        arrival.entry is None,
        arrival.burn is None,
{
}

} // verus!
