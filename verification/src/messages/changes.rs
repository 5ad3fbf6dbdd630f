//! What changes in rows that are already there, and where the list comes to rest.

use vstd::prelude::*;

use crate::anim::choices::{is_run, runs_if, Run};
use crate::anim::effects::Effect;
use crate::anim::ticks::Effects;
use crate::icons;
use crate::messages::rows::{reaction_label, reaction_text};
use crate::messages::view::MessagesView;
use crate::text::same_text;
use crate::tg::{Msg, Reaction};

verus! {

/// What becomes of the place of a reaction in a row.
pub struct ReactionStep {
    pub visible: bool,
    pub text: String,
    /// How the old text goes and the new one comes, where it rolls.
    pub roll: Option<(Run, Run)>,
    pub burst: Option<Run>,
}

/// What the place of a reaction shows.
pub open spec fn shown_before(shown: Seq<String>, at: int) -> Seq<char> {
    if at < shown.len() {
        shown[at]@
    } else {
        Seq::empty()
    }
}

/// Whether this is what becomes of the place of a reaction.
pub open spec fn is_reaction_step(
    step: ReactionStep,
    shown: Seq<String>,
    reactions: Seq<Reaction>,
    at: int,
    animate: bool,
    effects: Effects,
) -> bool {
    let before = shown_before(shown, at);
    if at < reactions.len() {
        let moves = animate && before != reaction_text(reactions[at]);
        &&& step.visible
        &&& step.text@ == reaction_text(reactions[at])
        &&& step.roll is Some <==> moves && effects.shows(Effect::Reactroll) && before.len() > 0
        &&& step.roll matches Some((out, back)) ==> is_run(out, "omg-run-reactroll"@, 200)
            && is_run(back, "omg-run-reactroll-in"@, 200)
        &&& runs_if(
            step.burst,
            moves && effects.shows(Effect::Reactburst),
            "omg-run-reactburst"@,
            320,
        )
    } else {
        &&& !step.visible
        &&& step.text@ == before
        &&& step.roll is None
        &&& step.burst is None
    }
}

/// The reactions to a message changed. Returns what becomes of each place: there are as
/// many as were shown, or as there are reactions.
pub fn update_reactions(
    shown: &Vec<String>,
    reactions: &Vec<Reaction>,
    animate: bool,
    effects: &Effects,
) -> (steps: Vec<ReactionStep>)
    requires
        effects.well_formed(),
    ensures
        steps@.len() == (if shown@.len() < reactions@.len() {
            reactions@.len()
        } else {
            shown@.len()
        }),
        forall|i: int|
            0 <= i < steps@.len() ==> is_reaction_step(
                #[trigger] steps@[i],
                shown@,
                reactions@,
                i,
                animate,
                *effects,
            ),
{
    let count: usize = if shown.len() < reactions.len() {
        reactions.len()
    } else {
        shown.len()
    };
    let mut steps: Vec<ReactionStep> = Vec::new();
    let mut i: usize = 0;
    while i < count
        invariant
            i <= count,
            effects.well_formed(),
            count == (if shown@.len() < reactions@.len() {
                reactions@.len()
            } else {
                shown@.len()
            }),
            steps@.len() == i,
            forall|j: int|
                0 <= j < i ==> is_reaction_step(
                    #[trigger] steps@[j],
                    shown@,
                    reactions@,
                    j,
                    animate,
                    *effects,
                ),
        decreases count - i,
    {
        let before = if i < shown.len() {
            shown[i].clone()
        } else {
            String::new()
        };
        assert(before@ =~= shown_before(shown@, i as int));
        if i < reactions.len() {
            let text = reaction_label(&reactions[i]);
            let moves = animate && !same_text(&before, &text);
            let roll = if moves {
                effects.reaction_changed(&before)
            } else {
                None
            };
            let burst = if moves {
                effects.reaction_added()
            } else {
                None
            };
            steps.push(ReactionStep { visible: true, text, roll, burst });
        } else {
            steps.push(ReactionStep { visible: false, text: before, roll: None, burst: None });
        }
        i += 1;
    }
    steps
}

/// Whether a message has been edited since it was last shown.
pub fn newly_edited(was_edited: bool, old_text: &str, msg: &Msg) -> (edited: bool)
    ensures
        edited == (msg.edited && (!was_edited || old_text@ != msg.text@)),
{
    msg.edited && (!was_edited || !same_text(old_text, &msg.text))
}

/// The first row whose lower edge is in view, or the last row where none is.
pub fn first_visible(in_view: &Vec<bool>) -> (row: Option<usize>)
    ensures
        match row {
            None => in_view@.len() == 0,
            Some(at) => {
                &&& at < in_view@.len()
                &&& forall|i: int| 0 <= i < at ==> !#[trigger] in_view@[i]
                &&& in_view@[at as int] || at == in_view@.len() - 1
            },
        },
{
    let mut i: usize = 0;
    while i < in_view.len()
        invariant
            i <= in_view@.len(),
            forall|j: int| 0 <= j < i ==> !#[trigger] in_view@[j],
        decreases in_view@.len() - i,
    {
        if in_view[i] {
            return Some(i);
        }
        i += 1;
    }
    if in_view.len() == 0 {
        None
    } else {
        Some(in_view.len() - 1)
    }
}

/// How many frames the list is given to grow.
pub const SETTLE_FRAMES: u32 = 3;

/// The list was filled, and is about to grow.
#[derive(Debug, Clone, Copy, PartialEq, Eq, Structural)]
pub struct Settling {
    /// The filling that is waited for.
    pub epoch: u64,
    pub frames: u32,
}

/// What is to be done while the list grows.
#[derive(Debug, Clone, Copy, PartialEq, Eq, Structural)]
pub enum SettleStep {
    Wait,
    /// The list was filled anew since.
    Forget,
    /// The list has its size. Whether it grew is told.
    Settled(bool),
}

impl Settling {
    pub fn new(epoch: u64) -> (settling: Settling)
        ensures
            settling == (Settling { epoch, frames: 0 }),
    {
        Settling { epoch, frames: 0 }
    }

    /// The list tells its size.
    pub fn size_told(self, epoch: u64, changed: bool) -> (step: SettleStep)
        ensures
            step == (if epoch == self.epoch && changed {
                SettleStep::Settled(true)
            } else {
                SettleStep::Wait
            }),
    {
        if epoch == self.epoch && changed {
            SettleStep::Settled(true)
        } else {
            SettleStep::Wait
        }
    }

    /// A frame went by. A list that does not grow is waited for in three frames.
    pub fn frame_passed(&mut self, epoch: u64, changed: bool) -> (step: SettleStep)
        requires
            old(self).frames < SETTLE_FRAMES,
        ensures
            step == (if epoch != old(self).epoch {
                SettleStep::Forget
            } else if !changed && old(self).frames + 1 < SETTLE_FRAMES {
                SettleStep::Wait
            } else {
                SettleStep::Settled(changed)
            }),
            *final(self) == (Settling {
                frames: if step is Forget {
                    old(self).frames
                } else {
                    (old(self).frames + 1) as u32
                },
                ..*old(self)
            }),
            step is Wait ==> final(self).frames < SETTLE_FRAMES,
    {
        if epoch != self.epoch {
            return SettleStep::Forget;
        }
        self.frames = self.frames + 1;
        if !changed && self.frames < SETTLE_FRAMES {
            SettleStep::Wait
        } else {
            SettleStep::Settled(changed)
        }
    }
}

/// How the button below the messages looks.
pub struct SendLook {
    pub icon: &'static str,
    pub tooltip: &'static str,
    pub primary: bool,
}

impl MessagesView {
    /// The button records a voice message while nothing is written.
    pub fn send_look(&self) -> (look: SendLook)
        ensures
            if self.composer.text@.len() == 0 {
                look.icon@ == icons::MIC@ && look.tooltip@ == "Voice message"@ && !look.primary
            } else {
                look.icon@ == icons::SEND@ && look.tooltip@ == "Send"@ && look.primary
            },
    {
        if self.sends_voice() {
            SendLook { icon: icons::MIC, tooltip: "Voice message", primary: false }
        } else {
            SendLook { icon: icons::SEND, tooltip: "Send", primary: true }
        }
    }
}

/// A row whose reactions stayed as they were shows no effect.
pub proof fn law_unchanged_reactions_stand_still(
    step: ReactionStep,
    shown: Seq<String>,
    reactions: Seq<Reaction>,
    at: int,
    animate: bool,
    effects: Effects,
)
    requires
        is_reaction_step(step, shown, reactions, at, animate, effects),
        at < reactions.len(),
        shown_before(shown, at) == reaction_text(reactions[at]),
    ensures
        step.roll is None,
        step.burst is None,
{
}

} // verus!
