//! What runs: the animations of single widgets, and the preview of an effect.

use vstd::prelude::*;

use crate::anim::effects::{effect_at, Effect, EFFECT_COUNT};
use crate::anim::presets::AnimSettings;

verus! {

/// How long a preview is shown, in milliseconds.
pub const PREVIEW_TIME: u64 = 1300;

/// The animation of a widget.
#[derive(Debug, Clone, Copy, PartialEq, Eq, Structural)]
pub struct Tick {
    pub serial: u64,
    /// The number of the widget.
    pub widget: u64,
    pub effect: Effect,
    pub active: bool,
}

/// An animation that has begun.
pub struct Begun {
    pub serial: u64,
    /// The animations that were stopped because their effects are switched off.
    pub disabled: Vec<u64>,
    /// The animations whose place it takes.
    pub replaced: Vec<u64>,
}

/// What runs.
pub struct Effects {
    pub settings: AnimSettings,
    /// Whether the desktop lets anything move.
    pub animations_enabled: bool,
    /// The effect that is being shown whether it is switched on or not.
    pub previewing: Option<Effect>,
    pub ticks: Vec<Tick>,
    pub next_tick: u64,
    pub live_ticks: usize,
    pub preview: Option<u64>,
    pub next_preview: u64,
    /// The shade that is wiping over the messages.
    pub wipe: Option<u64>,
    pub next_wipe: u64,
}

/// How many animations run.
pub open spec fn running(ticks: Seq<Tick>) -> nat
    decreases ticks.len(),
{
    if ticks.len() == 0 {
        0
    } else {
        running(ticks.drop_last()) + (if ticks.last().active { 1nat } else { 0nat })
    }
}

/// Where the animation with a number stands first, or how many there are.
pub open spec fn tick_place(ticks: Seq<Tick>, serial: u64) -> int
    decreases ticks.len(),
{
    if ticks.len() == 0 {
        0
    } else {
        let earlier = tick_place(ticks.drop_last(), serial);
        if earlier < ticks.len() - 1 || ticks.last().serial == serial {
            earlier
        } else {
            ticks.len() as int
        }
    }
}

/// The numbers of the animations for which a condition holds.
pub open spec fn serials_of(ticks: Seq<Tick>, which: spec_fn(Tick) -> bool) -> Seq<u64> {
    ticks.filter(which).map_values(|tick: Tick| tick.serial)
}

/// The animations with one that has ended.
pub open spec fn ended(tick: Tick) -> Tick {
    Tick { active: false, ..tick }
}

/// Ends the animations for which a condition holds.
pub open spec fn ended_if(which: spec_fn(Tick) -> bool) -> spec_fn(Tick) -> Tick {
    |tick: Tick|
        if which(tick) {
            ended(tick)
        } else {
            tick
        }
}

/// Whether an animation of an effect on a widget began.
pub open spec fn begins(
    before: Effects,
    after: Effects,
    begun: Begun,
    widget: u64,
    effect: Effect,
) -> bool {
    let kept = before.ticks@.filter(before.runs_on());
    let same = Effects::is_same(widget, effect);
    &&& begun.serial == before.next_tick + 1
    &&& begun.disabled@ == serials_of(before.ticks@, before.is_disabled())
    &&& begun.replaced@ == serials_of(kept, same)
    &&& after.ticks@ == kept.map_values(ended_if(same)).push(
        Tick { serial: begun.serial, widget, effect, active: true },
    )
    &&& after == (Effects {
        ticks: after.ticks,
        live_ticks: after.live_ticks,
        next_tick: begun.serial,
        ..before
    })
}

/// Whether the animations of an effect on a widget were stopped.
pub open spec fn stops(
    before: Effects,
    after: Effects,
    stopped: Seq<u64>,
    widget: u64,
    effect: Effect,
) -> bool {
    let same = Effects::is_same(widget, effect);
    &&& stopped == serials_of(before.ticks@, same)
    &&& after.ticks@ == before.ticks@.map_values(ended_if(same))
    &&& after == (Effects { ticks: after.ticks, live_ticks: after.live_ticks, ..before })
}

proof fn lemma_running_bound(ticks: Seq<Tick>)
    ensures
        running(ticks) <= ticks.len(),
    decreases ticks.len(),
{
    if ticks.len() > 0 {
        lemma_running_bound(ticks.drop_last());
    }
}

proof fn lemma_running_update(ticks: Seq<Tick>, at: int)
    requires
        0 <= at < ticks.len(),
        ticks[at].active,
    ensures
        running(ticks.update(at, ended(ticks[at]))) == running(ticks) - 1,
        running(ticks) > 0,
    decreases ticks.len(),
{
    let after = ticks.update(at, ended(ticks[at]));
    if at == ticks.len() - 1 {
        assert(after.drop_last() =~= ticks.drop_last());
    } else {
        assert(after.drop_last() =~= ticks.drop_last().update(at, ended(ticks[at])));
        lemma_running_update(ticks.drop_last(), at);
    }
}

proof fn lemma_tick_place(ticks: Seq<Tick>, serial: u64, at: int)
    requires
        0 <= at <= ticks.len(),
        forall|i: int| 0 <= i < at ==> (#[trigger] ticks[i]).serial != serial,
        at < ticks.len() ==> ticks[at].serial == serial,
    ensures
        tick_place(ticks, serial) == at,
    decreases ticks.len(),
{
    if ticks.len() > 0 {
        let rest = ticks.drop_last();
        assert forall|i: int| 0 <= i < at && i < rest.len() implies (#[trigger] rest[i]).serial
            != serial by {
            assert(rest[i] == ticks[i]);
        }
        if at < ticks.len() {
            lemma_tick_place(rest, serial, at);
        } else {
            assert(ticks[ticks.len() - 1].serial != serial);
            lemma_tick_place(rest, serial, at - 1);
        }
    }
}

impl Effects {
    /// The number of animations that run is known, and no two have the same number.
    pub open spec fn well_formed(self) -> bool {
        &&& self.settings.well_formed()
        &&& self.live_ticks == running(self.ticks@)
        &&& forall|i: int|
            0 <= i < self.ticks@.len() ==> (#[trigger] self.ticks@[i]).serial <= self.next_tick
        &&& forall|i: int, j: int|
            0 <= i < j < self.ticks@.len() ==> (#[trigger] self.ticks@[i]).serial != (
            #[trigger] self.ticks@[j]).serial
    }

    pub fn new(settings: AnimSettings, animations_enabled: bool, previewing: Option<Effect>) -> (
        effects: Effects)
        requires
            settings.well_formed(),
        ensures
            effects.well_formed(),
            effects.settings == settings,
            effects.animations_enabled == animations_enabled,
            effects.previewing == previewing,
            effects.ticks@.len() == 0,
            effects.next_tick == 0,
            effects.live_ticks == 0,
            effects.preview is None,
            effects.next_preview == 0,
            effects.wipe is None,
            effects.next_wipe == 0,
    {
        Effects {
            settings,
            animations_enabled,
            previewing,
            ticks: Vec::new(),
            next_tick: 0,
            live_ticks: 0,
            preview: None,
            next_preview: 0,
            wipe: None,
            next_wipe: 0,
        }
    }

    /// Whether an effect is to be seen. Nothing is where nothing may move. The clock
    /// of the header counts as an effect.
    pub open spec fn shows(self, effect: Effect) -> bool {
        self.animations_enabled && (self.previewing == Some(effect) || self.settings.has(effect)
            || (effect is Liveclock && self.settings.header_clock))
    }

    pub fn on(&self, effect: Effect) -> (answer: bool)
        requires
            self.well_formed(),
        ensures
            answer == self.shows(effect),
    {
        if !self.animations_enabled {
            return false;
        }
        let previewed = match self.previewing {
            Some(shown) => shown == effect,
            None => false,
        };
        previewed || self.settings.animation(effect) || (matches!(effect, Effect::Liveclock)
            && self.settings.header_clock)
    }

    pub fn live_tick_count(&self) -> (count: usize)
        requires
            self.well_formed(),
        ensures
            count == running(self.ticks@),
    {
        self.live_ticks
    }

    /// An animation has ended. Returns whether it was running.
    pub fn finish_tick(&mut self, serial: u64) -> (stopped: bool)
        requires
            old(self).well_formed(),
        ensures
            final(self).well_formed(),
            ({
                let at = tick_place(old(self).ticks@, serial);
                &&& stopped == (at < old(self).ticks@.len() && old(self).ticks@[at].active)
                &&& stopped ==> final(self).ticks@ == old(self).ticks@.update(
                    at,
                    ended(old(self).ticks@[at]),
                )
            }),
            !stopped ==> *final(self) == *old(self),
            *final(self) == (Effects {
                ticks: final(self).ticks,
                live_ticks: final(self).live_ticks,
                ..*old(self)
            }),
    {
        let ghost before = self.ticks@;
        let mut at: usize = 0;
        while at < self.ticks.len()
            invariant
                at <= self.ticks@.len(),
                *self == *old(self),
                self.well_formed(),
                before == self.ticks@,
                forall|i: int| 0 <= i < at ==> (#[trigger] self.ticks@[i]).serial != serial,
            decreases self.ticks@.len() - at,
        {
            let tick = self.ticks[at];
            if tick.serial == serial {
                proof {
                    lemma_tick_place(before, serial, at as int);
                }
                if !tick.active {
                    return false;
                }
                proof {
                    lemma_running_update(before, at as int);
                }
                self.ticks.set(at, Tick { active: false, ..tick });
                self.live_ticks = self.live_ticks - 1;
                proof {
                    let after = self.ticks@;
                    assert(after == before.update(at as int, ended(tick)));
                    assert forall|i: int, j: int| 0 <= i < j < after.len() implies (
                    #[trigger] after[i]).serial != (#[trigger] after[j]).serial by {
                        assert(before[i].serial != before[j].serial);
                    }
                    assert forall|i: int| 0 <= i < after.len() implies (
                    #[trigger] after[i]).serial <= self.next_tick by {
                        assert(before[i].serial <= old(self).next_tick);
                    }
                }
                return true;
            }
            at += 1;
        }
        proof {
            lemma_tick_place(before, serial, at as int);
        }
        false
    }

    /// Which animations run on.
    pub open spec fn runs_on(self) -> spec_fn(Tick) -> bool {
        |tick: Tick| tick.active && self.shows(tick.effect)
    }

    /// Which animations are to stop, their effect being switched off.
    pub open spec fn is_disabled(self) -> spec_fn(Tick) -> bool {
        |tick: Tick| tick.active && !self.shows(tick.effect)
    }

    /// Stops the animations whose effects are switched off, and forgets those that
    /// have ended. Returns the numbers of the ones that were stopped.
    pub fn stop_disabled_ticks(&mut self) -> (stopped: Vec<u64>)
        requires
            old(self).well_formed(),
        ensures
            final(self).well_formed(),
            final(self).ticks@ == old(self).ticks@.filter(old(self).runs_on()),
            stopped@ == serials_of(old(self).ticks@, old(self).is_disabled()),
            *final(self) == (Effects {
                ticks: final(self).ticks,
                live_ticks: final(self).live_ticks,
                ..*old(self)
            }),
    {
        let ghost keep = self.runs_on();
        let ghost stop = self.is_disabled();
        let ghost number = |tick: Tick| tick.serial;
        let ghost before = self.ticks@;
        let mut rest: Vec<Tick> = Vec::new();
        let mut stopped: Vec<u64> = Vec::new();
        let mut i: usize = 0;
        proof {
            reveal(Seq::filter);
            assert(before.take(0) =~= Seq::<Tick>::empty());
            assert(Seq::<Tick>::empty().map_values(number) =~= Seq::<u64>::empty());
        }
        while i < self.ticks.len()
            invariant
                i <= self.ticks@.len(),
                *self == *old(self),
                self.well_formed(),
                before == self.ticks@,
                keep == self.runs_on(),
                stop == self.is_disabled(),
                number == (|tick: Tick| tick.serial),
                rest@ == before.take(i as int).filter(keep),
                rest@.len() <= i,
                stopped@ == before.take(i as int).filter(stop).map_values(number),
                running(rest@) == rest@.len(),
                forall|j: int| 0 <= j < rest@.len() ==> exists|k: int|
                    0 <= k < i && #[trigger] before[k] == #[trigger] rest@[j],
                forall|j: int, k: int|
                    0 <= j < k < rest@.len() ==> (#[trigger] rest@[j]).serial != (
                    #[trigger] rest@[k]).serial,
            decreases self.ticks@.len() - i,
        {
            let tick = self.ticks[i];
            let ghost done = before.take(i as int).filter(stop);
            let ghost now = rest@;
            proof {
                reveal(Seq::filter);
                assert(before.take(i + 1).drop_last() =~= before.take(i as int));
                assert(before.take(i + 1).last() == tick);
                assert(done.push(tick).map_values(number) =~= done.map_values(number).push(
                    tick.serial,
                ));
            }
            let shown = self.on(tick.effect);
            if tick.active && shown {
                rest.push(tick);
                proof {
                    assert(rest@.drop_last() =~= now);
                    assert forall|j: int| 0 <= j < rest@.len() implies exists|k: int|
                        0 <= k < i + 1 && #[trigger] before[k] == #[trigger] rest@[j] by {
                        if j < now.len() {
                            assert(now[j] == rest@[j]);
                            let k = choose|k: int| 0 <= k < i && #[trigger] before[k] == now[j];
                            assert(before[k] == rest@[j]);
                        } else {
                            assert(before[i as int] == rest@[j]);
                        }
                    }
                    assert forall|j: int, k: int| 0 <= j < k < rest@.len() implies (
                    #[trigger] rest@[j]).serial != (#[trigger] rest@[k]).serial by {
                        if k < now.len() {
                            assert(now[j].serial != now[k].serial);
                        } else {
                            assert(now[j] == rest@[j]);
                            let p = choose|p: int| 0 <= p < i && #[trigger] before[p] == now[j];
                            assert(before[p].serial != before[i as int].serial);
                        }
                    }
                }
            } else if tick.active {
                stopped.push(tick.serial);
            }
            i += 1;
        }
        proof {
            assert(before.take(i as int) =~= before);
            assert forall|j: int| 0 <= j < rest@.len() implies (#[trigger] rest@[j]).serial
                <= self.next_tick by {
                let k = choose|k: int| 0 <= k < i && #[trigger] before[k] == rest@[j];
                assert(before[k].serial <= self.next_tick);
            }
        }
        self.live_ticks = rest.len();
        self.ticks = rest;
        stopped
    }

    /// Which animations are those of an effect on a widget.
    pub open spec fn is_same(widget: u64, effect: Effect) -> spec_fn(Tick) -> bool {
        |tick: Tick| tick.active && tick.widget == widget && tick.effect == effect
    }

    /// Stops the animations of an effect on a widget. Returns their numbers.
    pub fn stop_matching_ticks(&mut self, widget: u64, effect: Effect) -> (stopped: Vec<u64>)
        requires
            old(self).well_formed(),
        ensures
            final(self).well_formed(),
            stops(*old(self), *final(self), stopped@, widget, effect),
    {
        let ghost which = Effects::is_same(widget, effect);
        let ghost number = |tick: Tick| tick.serial;
        let ghost before = self.ticks@;
        let mut stopped: Vec<u64> = Vec::new();
        let mut i: usize = 0;
        proof {
            reveal(Seq::filter);
            assert(before.take(0) =~= Seq::<Tick>::empty());
            assert(Seq::<Tick>::empty().map_values(number) =~= Seq::<u64>::empty());
        }
        while i < self.ticks.len()
            invariant
                i <= self.ticks@.len(),
                self.ticks@.len() == before.len(),
                self.live_ticks == running(self.ticks@),
                *self == (Effects {
                    ticks: self.ticks,
                    live_ticks: self.live_ticks,
                    ..*old(self)
                }),
                which == Effects::is_same(widget, effect),
                number == (|tick: Tick| tick.serial),
                stopped@ == before.take(i as int).filter(which).map_values(number),
                forall|j: int|
                    0 <= j < i ==> #[trigger] self.ticks@[j] == (if which(before[j]) {
                        ended(before[j])
                    } else {
                        before[j]
                    }),
                forall|j: int| i <= j < before.len() ==> #[trigger] self.ticks@[j] == before[j],
            decreases self.ticks@.len() - i,
        {
            let tick = self.ticks[i];
            assert(tick == before[i as int]);
            let ghost done = before.take(i as int).filter(which);
            proof {
                reveal(Seq::filter);
                assert(before.take(i + 1).drop_last() =~= before.take(i as int));
                assert(before.take(i + 1).last() == tick);
                assert(done.push(tick).map_values(number) =~= done.map_values(number).push(
                    tick.serial,
                ));
            }
            if tick.active && tick.widget == widget && tick.effect == effect {
                proof {
                    lemma_running_update(self.ticks@, i as int);
                }
                self.ticks.set(i, Tick { active: false, ..tick });
                self.live_ticks = self.live_ticks - 1;
                stopped.push(tick.serial);
            }
            i += 1;
        }
        proof {
            assert(before.take(i as int) =~= before);
            let after = self.ticks@;
            assert(after =~= before.map_values(ended_if(which)));
            assert forall|i: int, j: int| 0 <= i < j < after.len() implies (
            #[trigger] after[i]).serial != (#[trigger] after[j]).serial by {
                assert(before[i].serial != before[j].serial);
            }
            assert forall|i: int| 0 <= i < after.len() implies (#[trigger] after[i]).serial
                <= self.next_tick by {
                assert(before[i].serial <= old(self).next_tick);
            }
        }
        stopped
    }

    /// Begins the animation of an effect on a widget, in place of an earlier one of
    /// the two. Nothing begins where the effect is not to be seen.
    pub fn tracked_tick(&mut self, widget: u64, effect: Effect) -> (begun: Option<Begun>)
        requires
            old(self).well_formed(),
            old(self).next_tick < u64::MAX,
        ensures
            final(self).well_formed(),
            begun is Some <==> old(self).shows(effect),
            begun is None ==> *final(self) == *old(self),
            begun is Some ==> begins(*old(self), *final(self), begun->0, widget, effect),
    {
        if !self.on(effect) {
            return None;
        }
        let disabled = self.stop_disabled_ticks();
        let replaced = self.stop_matching_ticks(widget, effect);
        let serial: u64 = self.next_tick + 1;
        self.next_tick = serial;
        let ghost before = self.ticks@;
        self.ticks.push(Tick { serial, widget, effect, active: true });
        let count: usize = self.ticks.len();
        proof {
            lemma_running_bound(before);
            assert(self.ticks@.drop_last() =~= before);
            assert(count == self.ticks@.len());
        }
        self.live_ticks = self.live_ticks + 1;
        proof {
            let after = self.ticks@;
            assert forall|i: int, j: int| 0 <= i < j < after.len() implies (
            #[trigger] after[i]).serial != (#[trigger] after[j]).serial by {
                if j < before.len() {
                    assert(before[i].serial != before[j].serial);
                } else {
                    assert(before[i].serial <= old(self).next_tick);
                }
            }
        }
        Some(Begun { serial, disabled, replaced })
    }

    /// A preview is to be shown. An earlier one ends. Returns the number of the one
    /// that ended and of the one that began: none begins where there is no room for
    /// it, and nothing happens where nothing may move.
    pub fn begin_preview(&mut self, has_room: bool) -> (change: (Option<u64>, Option<u64>))
        ensures
            !old(self).animations_enabled ==> change == (None::<u64>, None::<u64>) && *final(self)
                == *old(self),
            old(self).animations_enabled ==> {
                &&& change.0 == old(self).preview
                &&& change.1 == (if has_room {
                    Some(old(self).next_preview.wrapping_add(1))
                } else {
                    None
                })
                &&& *final(self) == (Effects {
                    preview: change.1,
                    next_preview: if has_room {
                        old(self).next_preview.wrapping_add(1)
                    } else {
                        old(self).next_preview
                    },
                    ..*old(self)
                })
            },
    {
        if !self.animations_enabled {
            return (None, None);
        }
        let ended = self.preview;
        self.preview = None;
        if !has_room {
            return (ended, None);
        }
        let serial: u64 = self.next_preview.wrapping_add(1);
        self.next_preview = serial;
        self.preview = Some(serial);
        (ended, Some(serial))
    }

    /// The time of a preview is over. Returns whether it is the one that is shown.
    pub fn finish_preview(&mut self, serial: u64) -> (finished: bool)
        ensures
            finished == (old(self).preview == Some(serial)),
            *final(self) == (Effects {
                preview: if finished { None } else { old(self).preview },
                ..*old(self)
            }),
    {
        let shown = match self.preview {
            Some(shown) => shown == serial,
            None => false,
        };
        if shown {
            self.preview = None;
        }
        shown
    }

    /// The preview ends at once. Returns its number.
    pub fn cancel_preview(&mut self) -> (ended: Option<u64>)
        ensures
            ended == old(self).preview,
            *final(self) == (Effects { preview: None, ..*old(self) }),
    {
        let ended = self.preview;
        self.preview = None;
        ended
    }

    /// For each effect, whether the window bears its class.
    pub fn sync_root(&self) -> (marks: Vec<bool>)
        requires
            self.well_formed(),
        ensures
            marks@.len() == EFFECT_COUNT,
            forall|i: int|
                0 <= i < EFFECT_COUNT ==> #[trigger] marks@[i] == self.shows(effect_at(i)),
    {
        let mut marks: Vec<bool> = Vec::new();
        let mut i: usize = 0;
        while i < EFFECT_COUNT
            invariant
                self.well_formed(),
                i <= EFFECT_COUNT,
                marks@.len() == i,
                forall|j: int| 0 <= j < i ==> #[trigger] marks@[j] == self.shows(effect_at(j)),
            decreases EFFECT_COUNT - i,
        {
            let on = self.on(Effect::at(i));
            marks.push(on);
            i += 1;
        }
        marks
    }

    /// What the settings or the desktop allow changed. Returns the numbers of the
    /// animations that were stopped.
    pub fn sync(&mut self, settings: AnimSettings, animations_enabled: bool) -> (stopped: Vec<u64>)
        requires
            old(self).well_formed(),
            settings.well_formed(),
        ensures
            final(self).well_formed(),
            ({
                let changed = Effects { settings, animations_enabled, ..*old(self) };
                &&& final(self).ticks@ == old(self).ticks@.filter(changed.runs_on())
                &&& stopped@ == serials_of(old(self).ticks@, changed.is_disabled())
                &&& *final(self) == (Effects {
                    ticks: final(self).ticks,
                    live_ticks: final(self).live_ticks,
                    ..changed
                })
            }),
    {
        self.settings = settings;
        self.animations_enabled = animations_enabled;
        self.stop_disabled_ticks()
    }
}

proof fn lemma_none_runs(ticks: Seq<Tick>)
    requires
        forall|i: int| 0 <= i < ticks.len() ==> !(#[trigger] ticks[i]).active,
    ensures
        running(ticks) == 0,
    decreases ticks.len(),
{
    if ticks.len() > 0 {
        let rest = ticks.drop_last();
        assert forall|i: int| 0 <= i < rest.len() implies !(#[trigger] rest[i]).active by {
            assert(rest[i] == ticks[i]);
        }
        lemma_none_runs(rest);
        assert(!ticks[ticks.len() - 1].active);
    }
}

/// Where nothing may move no effect is to be seen, and once that is noticed nothing
/// runs any more.
pub proof fn law_reduced_motion_stops_everything(effects: Effects, effect: Effect)
    requires
        effects.well_formed(),
        !effects.animations_enabled,
    ensures
        !effects.shows(effect),
        running(effects.ticks@.filter(effects.runs_on())) == 0,
{
    let rest = effects.ticks@.filter(effects.runs_on());
    assert forall|i: int| 0 <= i < rest.len() implies !(#[trigger] rest[i]).active by {
        effects.ticks@.lemma_filter_pred(effects.runs_on(), i);
    }
    lemma_none_runs(rest);
}

} // verus!
