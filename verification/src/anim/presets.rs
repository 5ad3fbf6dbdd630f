//! Which effects are switched on.

use vstd::prelude::*;

use crate::anim::effects::{
    effect_at, group_of, index_of, lemma_places, Effect, RadioGroup, EFFECT_COUNT,
};

verus! {

/// Which effects are switched on, and whether the header has a clock.
pub struct AnimSettings {
    pub flags: Vec<bool>,
    pub header_clock: bool,
}

/// A choice of effects that is made at once.
#[derive(Debug, Clone, Copy, PartialEq, Eq, Structural)]
pub enum Preset {
    Purist,
    Subtle,
    FullPhosphor,
}

/// Whether a preset switches an effect on. Effects that flash across the whole window
/// are in none.
pub open spec fn preset_has(preset: Preset, effect: Effect) -> bool {
    match preset {
        Preset::Purist => false,
        Preset::Subtle => match effect {
            Effect::Fadeup
            | Effect::Ticksweep
            | Effect::Crossfade
            | Effect::Receiptdraw
            | Effect::Editripple
            | Effect::Ellipsis
            | Effect::Badgepop
            | Effect::Selbaron
            | Effect::Jumprocket
            | Effect::Datefloat
            | Effect::Composercursor
            | Effect::Tsreveal
            | Effect::Liveclock
            | Effect::Onlinebreathe => true,
            _ => false,
        },
        Preset::FullPhosphor => match group_of(effect) {
            Some(RadioGroup::Entry) => effect is Decode,
            Some(RadioGroup::Send) => effect is Invert,
            Some(RadioGroup::Switch) => effect is Wipe,
            None => !(effect is Flicker) && !(effect is Staticerror),
        },
    }
}

/// The effect of a group that a preset switches on.
pub open spec fn preset_choice(preset: Preset, group: RadioGroup) -> Option<Effect> {
    match (preset, group) {
        (Preset::Purist, _) => None,
        (Preset::Subtle, RadioGroup::Entry) => Some(Effect::Fadeup),
        (Preset::Subtle, RadioGroup::Send) => Some(Effect::Ticksweep),
        (Preset::Subtle, RadioGroup::Switch) => Some(Effect::Crossfade),
        (Preset::FullPhosphor, RadioGroup::Entry) => Some(Effect::Decode),
        (Preset::FullPhosphor, RadioGroup::Send) => Some(Effect::Invert),
        (Preset::FullPhosphor, RadioGroup::Switch) => Some(Effect::Wipe),
    }
}

fn in_preset(preset: Preset, effect: Effect) -> (answer: bool)
    ensures
        answer == preset_has(preset, effect),
{
    match preset {
        Preset::Purist => false,
        Preset::Subtle => matches!(
            effect,
            Effect::Fadeup
                | Effect::Ticksweep
                | Effect::Crossfade
                | Effect::Receiptdraw
                | Effect::Editripple
                | Effect::Ellipsis
                | Effect::Badgepop
                | Effect::Selbaron
                | Effect::Jumprocket
                | Effect::Datefloat
                | Effect::Composercursor
                | Effect::Tsreveal
                | Effect::Liveclock
                | Effect::Onlinebreathe
        ),
        Preset::FullPhosphor => match effect.group() {
            Some(RadioGroup::Entry) => matches!(effect, Effect::Decode),
            Some(RadioGroup::Send) => matches!(effect, Effect::Invert),
            Some(RadioGroup::Switch) => matches!(effect, Effect::Wipe),
            None => !matches!(effect, Effect::Flicker | Effect::Staticerror),
        },
    }
}

impl AnimSettings {
    /// There is a switch for each effect.
    pub open spec fn well_formed(self) -> bool {
        self.flags@.len() == EFFECT_COUNT
    }

    /// Whether an effect is switched on.
    pub open spec fn has(self, effect: Effect) -> bool {
        self.flags@[index_of(effect)]
    }

    /// Everything is off at first.
    pub fn new() -> (settings: AnimSettings)
        ensures
            settings.well_formed(),
            forall|effect: Effect| !#[trigger] settings.has(effect),
            !settings.header_clock,
    {
        let mut flags: Vec<bool> = Vec::new();
        while flags.len() < EFFECT_COUNT
            invariant
                flags@.len() <= EFFECT_COUNT,
                forall|i: int| 0 <= i < flags@.len() ==> !#[trigger] flags@[i],
            decreases EFFECT_COUNT - flags@.len(),
        {
            flags.push(false);
        }
        let settings = AnimSettings { flags, header_clock: false };
        assert forall|effect: Effect| !#[trigger] settings.has(effect) by {
            lemma_places(effect);
        }
        settings
    }

    /// Whether an effect is switched on.
    pub fn animation(&self, effect: Effect) -> (on: bool)
        requires
            self.well_formed(),
        ensures
            on == self.has(effect),
    {
        self.flags[effect.index()]
    }

    /// Switches one effect on or off.
    pub fn set_animation(&mut self, effect: Effect, on: bool)
        requires
            old(self).well_formed(),
        ensures
            final(self).well_formed(),
            final(self).has(effect) == on,
            forall|other: Effect|
                other != effect ==> #[trigger] final(self).has(other) == old(self).has(other),
            final(self).header_clock == old(self).header_clock,
    {
        self.flags.set(effect.index(), on);
        proof {
            lemma_places(effect);
            assert forall|other: Effect| other != effect implies #[trigger] self.has(other) == old(
                self,
            ).has(other) by {
                lemma_places(other);
            }
        }
    }

    /// Switches the effects of a preset on, and all others off.
    fn apply(&mut self, preset: Preset)
        requires
            old(self).well_formed(),
        ensures
            final(self).well_formed(),
            forall|effect: Effect| #[trigger]
                final(self).has(effect) == preset_has(preset, effect),
            final(self).header_clock == old(self).header_clock,
    {
        let mut i: usize = 0;
        while i < EFFECT_COUNT
            invariant
                i <= EFFECT_COUNT,
                self.flags@.len() == EFFECT_COUNT,
                self.header_clock == old(self).header_clock,
                forall|j: int|
                    0 <= j < i ==> #[trigger] self.flags@[j] == preset_has(preset, effect_at(j)),
            decreases EFFECT_COUNT - i,
        {
            let on = in_preset(preset, Effect::at(i));
            self.flags.set(i, on);
            i += 1;
        }
        assert forall|effect: Effect| #[trigger] self.has(effect) == preset_has(preset, effect) by {
            lemma_places(effect);
            assert(self.flags@[index_of(effect)] == preset_has(
                preset,
                effect_at(index_of(effect)),
            ));
        }
    }
}

/// Switches all effects off.
pub fn apply_purist(settings: &mut AnimSettings)
    requires
        old(settings).well_formed(),
    ensures
        final(settings).well_formed(),
        forall|effect: Effect| !#[trigger] final(settings).has(effect),
        final(settings).header_clock == old(settings).header_clock,
{
    settings.apply(Preset::Purist);
    assert forall|effect: Effect| !#[trigger] settings.has(effect) by {
        assert(settings.has(effect) == preset_has(Preset::Purist, effect));
    }
}

/// Switches a few quiet effects on, and all others off.
pub fn apply_subtle(settings: &mut AnimSettings)
    requires
        old(settings).well_formed(),
    ensures
        final(settings).well_formed(),
        forall|effect: Effect| #[trigger]
            final(settings).has(effect) == preset_has(Preset::Subtle, effect),
        final(settings).header_clock == old(settings).header_clock,
{
    settings.apply(Preset::Subtle);
}

/// Switches everything on but what flashes across the whole window. Of each group
/// one effect is chosen.
pub fn apply_full_phosphor(settings: &mut AnimSettings)
    requires
        old(settings).well_formed(),
    ensures
        final(settings).well_formed(),
        forall|effect: Effect| #[trigger]
            final(settings).has(effect) == preset_has(Preset::FullPhosphor, effect),
        final(settings).header_clock == old(settings).header_clock,
{
    settings.apply(Preset::FullPhosphor);
}

/// Switches one effect of a group on, and the others of the group off.
pub fn select_radio(settings: &mut AnimSettings, selected: Effect, group: RadioGroup)
    requires
        old(settings).well_formed(),
    ensures
        final(settings).well_formed(),
        forall|effect: Effect| #[trigger]
            final(settings).has(effect) == (if group_of(effect) == Some(group) {
                effect == selected
            } else {
                old(settings).has(effect)
            }),
        final(settings).header_clock == old(settings).header_clock,
{
    let ghost before = settings.flags@;
    let mut i: usize = 0;
    while i < EFFECT_COUNT
        invariant
            i <= EFFECT_COUNT,
            before.len() == EFFECT_COUNT,
            settings.flags@.len() == EFFECT_COUNT,
            settings.header_clock == old(settings).header_clock,
            forall|j: int|
                0 <= j < i ==> #[trigger] settings.flags@[j] == (if group_of(effect_at(j)) == Some(
                    group,
                ) {
                    effect_at(j) == selected
                } else {
                    before[j]
                }),
            forall|j: int| i <= j < EFFECT_COUNT ==> #[trigger] settings.flags@[j] == before[j],
        decreases EFFECT_COUNT - i,
    {
        let effect = Effect::at(i);
        let member = match effect.group() {
            Some(own) => own == group,
            None => false,
        };
        if member {
            settings.flags.set(i, effect == selected);
        }
        i += 1;
    }
    assert forall|effect: Effect| #[trigger]
        settings.has(effect) == (if group_of(effect) == Some(group) {
            effect == selected
        } else {
            old(settings).has(effect)
        }) by {
        lemma_places(effect);
        let at = index_of(effect);
        assert(effect_at(at) == effect);
        assert(settings.flags@[at] == (if group_of(effect_at(at)) == Some(group) {
            effect_at(at) == selected
        } else {
            before[at]
        }));
    }
}

/// A preset never switches two effects of one group on, and where it switches any
/// effect on it chooses one of each group.
pub proof fn law_presets_choose_one_of_each_group(
    preset: Preset,
    group: RadioGroup,
    effect: Effect,
)
    requires
        group_of(effect) == Some(group),
    ensures
        preset_has(preset, effect) <==> preset_choice(preset, group) == Some(effect),
        preset is Purist <==> preset_choice(preset, group) is None,
{
}

/// The effects that flash across the whole window are in no preset.
pub proof fn law_flashing_effects_are_in_no_preset(preset: Preset)
    ensures
        !preset_has(preset, Effect::Flicker),
        !preset_has(preset, Effect::Staticerror),
{
}

/// After a choice among the effects of a group exactly the chosen one is on.
pub proof fn law_one_effect_of_a_group(
    before: AnimSettings,
    after: AnimSettings,
    selected: Effect,
    group: RadioGroup,
    effect: Effect,
)
    requires
        group_of(selected) == Some(group),
        group_of(effect) == Some(group),
        forall|effect: Effect| #[trigger]
            after.has(effect) == (if group_of(effect) == Some(group) {
                effect == selected
            } else {
                before.has(effect)
            }),
    ensures
        after.has(selected),
        after.has(effect) <==> effect == selected,
{
}

} // verus!
