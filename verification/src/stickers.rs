//! The animated stickers on the screen, and which of them play.
//!
//! Six stickers play at once. The others wait, and the one that was made first is the
//! next to play.

use vstd::prelude::*;

use crate::lottie::MAX_ANIMATING;

verus! {

/// What the drawing thread is told.
#[derive(Debug, Clone, Copy, PartialEq, Eq, Structural)]
pub enum Command {
    Play(u64),
    Pause(u64),
    Drop(u64),
}

/// A sticker on the screen.
pub struct Sticker {
    pub id: u64,
    /// Whether it is to play: its row is in sight, or the pointer is over it.
    pub wants: bool,
    /// Whether a frame of it was shown.
    pub ready: bool,
    pub frame: usize,
    pub frames: u64,
    pub error: Option<String>,
}

impl Sticker {
    pub fn is_ready(&self) -> (ready: bool)
        ensures
            ready == self.ready,
    {
        self.ready
    }

    pub fn frame_index(&self) -> (index: usize)
        ensures
            index == self.frame,
    {
        self.frame
    }

    /// How many frames were shown.
    pub fn frames_shown(&self) -> (frames: u64)
        ensures
            frames == self.frames,
    {
        self.frames
    }

    pub fn error(&self) -> (error: Option<String>)
        ensures
            error == self.error,
    {
        match &self.error {
            Some(message) => Some(message.clone()),
            None => None,
        }
    }
}

/// Whether a sticker is on the screen.
pub open spec fn registered(stickers: Seq<Sticker>, id: u64) -> bool {
    exists|at: int| 0 <= at < stickers.len() && (#[trigger] stickers[at]).id == id
}

/// Whether a sticker is to play.
pub open spec fn wanted(stickers: Seq<Sticker>, id: u64) -> bool {
    exists|at: int|
        0 <= at < stickers.len() && (#[trigger] stickers[at]).id == id && stickers[at].wants
}

/// Whether a sticker is to play but does not.
pub open spec fn waits(stickers: Seq<Sticker>, slots: Seq<u64>, id: u64) -> bool {
    wanted(stickers, id) && !slots.contains(id)
}

/// The first of the stickers that wait.
pub open spec fn next_waiting(stickers: Seq<Sticker>, slots: Seq<u64>) -> Option<u64>
    decreases stickers.len(),
{
    if stickers.len() == 0 {
        None
    } else {
        let earlier = next_waiting(stickers.drop_last(), slots);
        let last = stickers.last();
        if last.wants && !slots.contains(last.id) && (earlier is None || last.id < earlier->0) {
            Some(last.id)
        } else {
            earlier
        }
    }
}

/// The stickers that play once the free places are taken.
pub open spec fn filled(stickers: Seq<Sticker>, slots: Seq<u64>) -> Seq<u64>
    decreases MAX_ANIMATING - slots.len(),
{
    if slots.len() >= MAX_ANIMATING {
        slots
    } else {
        match next_waiting(stickers, slots) {
            None => slots,
            Some(id) => filled(stickers, slots.push(id)),
        }
    }
}

/// What the drawing thread is told when stickers begin to play.
pub open spec fn plays(ids: Seq<u64>) -> Seq<Command> {
    ids.map_values(|id: u64| Command::Play(id))
}

/// What the drawing thread is told when stickers stop.
pub open spec fn pauses(ids: Seq<u64>) -> Seq<Command> {
    ids.map_values(|id: u64| Command::Pause(id))
}

/// The places without one sticker's.
pub open spec fn others(id: u64) -> spec_fn(u64) -> bool {
    |slot: u64| slot != id
}

pub open spec fn vacated(slots: Seq<u64>, id: u64) -> Seq<u64> {
    slots.filter(others(id))
}

/// Which sticker waits first.
proof fn lemma_next_waiting(stickers: Seq<Sticker>, slots: Seq<u64>)
    ensures
        match next_waiting(stickers, slots) {
            None => forall|id: u64| !#[trigger] waits(stickers, slots, id),
            Some(first) => waits(stickers, slots, first) && (forall|id: u64| #[trigger]
                waits(stickers, slots, id) ==> first <= id),
        },
    decreases stickers.len(),
{
    if stickers.len() > 0 {
        let rest = stickers.drop_last();
        lemma_next_waiting(rest, slots);
        let last = stickers.last();
        assert forall|id: u64| #[trigger] waits(stickers, slots, id) <==> waits(rest, slots, id) || (
        last.id == id && last.wants && !slots.contains(id)) by {
            if wanted(rest, id) {
                let at = choose|at: int|
                    0 <= at < rest.len() && (#[trigger] rest[at]).id == id && rest[at].wants;
                assert(stickers[at].id == id);
            }
            if wanted(stickers, id) {
                let at = choose|at: int|
                    0 <= at < stickers.len() && (#[trigger] stickers[at]).id == id
                        && stickers[at].wants;
                if at < rest.len() {
                    assert(rest[at].id == id);
                }
            }
            assert(stickers[stickers.len() - 1] == last);
        }
        match next_waiting(rest, slots) {
            None => {
                if last.wants && !slots.contains(last.id) {
                    assert(waits(stickers, slots, last.id));
                }
            },
            Some(first) => {
                assert(waits(stickers, slots, first));
            },
        }
    }
}

/// What filling the free places does: the stickers that play go on, the ones that
/// begin waited, and where a place is left none waits.
proof fn lemma_filled(stickers: Seq<Sticker>, slots: Seq<u64>)
    requires
        slots.no_duplicates(),
        slots.len() <= MAX_ANIMATING,
    ensures
        slots.is_prefix_of(filled(stickers, slots)),
        filled(stickers, slots).no_duplicates(),
        filled(stickers, slots).len() <= MAX_ANIMATING,
        filled(stickers, slots).len() < MAX_ANIMATING ==> forall|id: u64|
            !#[trigger] waits(stickers, filled(stickers, slots), id),
        forall|i: int|
            slots.len() <= i < filled(stickers, slots).len() ==> wanted(
                stickers,
                #[trigger] filled(stickers, slots)[i],
            ),
        forall|i: int, id: u64|
            slots.len() <= i < filled(stickers, slots).len() && waits(
                stickers,
                filled(stickers, slots),
                id,
            ) ==> #[trigger] filled(stickers, slots)[i] < id || !#[trigger] registered(stickers, id),
    decreases MAX_ANIMATING - slots.len(),
{
    let after = filled(stickers, slots);
    lemma_next_waiting(stickers, slots);
    if slots.len() < MAX_ANIMATING {
        match next_waiting(stickers, slots) {
            None => {
                assert(slots.subrange(0, slots.len() as int) =~= slots);
            },
            Some(first) => {
                let more = slots.push(first);
                assert(more.no_duplicates()) by {
                    assert forall|i: int, j: int| 0 <= i < more.len() && 0 <= j < more.len() && i
                        != j implies more[i] != more[j] by {
                        if i < slots.len() && j < slots.len() {
                            assert(slots[i] != slots[j]);
                        } else if i < slots.len() {
                            assert(slots.contains(slots[i]));
                        } else {
                            assert(slots.contains(slots[j]));
                        }
                    }
                }
                lemma_filled(stickers, more);
                assert(slots.is_prefix_of(after)) by {
                    assert(after.subrange(0, more.len() as int) =~= more);
                    assert(after.subrange(0, slots.len() as int) =~= slots) by {
                        assert forall|i: int| 0 <= i < slots.len() implies after[i] == slots[i] by {
                            assert(after.subrange(0, more.len() as int)[i] == more[i]);
                        }
                    }
                }
                assert(after[slots.len() as int] == first) by {
                    assert(after.subrange(0, more.len() as int)[slots.len() as int] == first);
                }
                assert forall|i: int, id: u64|
                    slots.len() <= i < after.len() && waits(stickers, after, id) implies
                    #[trigger] after[i] < id || !#[trigger] registered(stickers, id) by {
                    if i == slots.len() {
                        assert(!slots.contains(id)) by {
                            if slots.contains(id) {
                                let p = slots.index_of(id);
                                assert(after.subrange(0, slots.len() as int)[p] == after[p]);
                            }
                        }
                        assert(waits(stickers, slots, id));
                        assert(after.contains(after[i]));
                    }
                }
            },
        }
    } else {
        assert(slots.subrange(0, slots.len() as int) =~= slots);
    }
}

proof fn lemma_vacated(slots: Seq<u64>, id: u64)
    requires
        slots.no_duplicates(),
    ensures
        vacated(slots, id).no_duplicates(),
        vacated(slots, id).len() <= slots.len(),
        forall|slot: u64| #[trigger]
            vacated(slots, id).contains(slot) <==> slots.contains(slot) && slot != id,
        !slots.contains(id) ==> vacated(slots, id) == slots,
    decreases slots.len(),
{
    reveal(Seq::filter);
    let after = vacated(slots, id);
    if slots.len() > 0 {
        let rest = slots.drop_last();
        let last = slots.last();
        lemma_vacated(rest, id);
        let kept = vacated(rest, id);
        assert(!rest.contains(last)) by {
            if rest.contains(last) {
                let p = rest.index_of(last);
                assert(slots[p] == slots[slots.len() - 1]);
            }
        }
        assert forall|slot: u64| #[trigger] after.contains(slot) <==> slots.contains(slot) && slot
            != id by {
            if after.contains(slot) {
                let p = after.index_of(slot);
                if p < kept.len() {
                    assert(kept[p] == slot);
                    assert(kept.contains(slot));
                    assert(slots[rest.index_of(slot)] == slot);
                } else {
                    assert(slots[slots.len() - 1] == slot);
                }
            }
            if slots.contains(slot) && slot != id {
                let p = slots.index_of(slot);
                if p < rest.len() {
                    assert(rest[p] == slot);
                    assert(kept.contains(slot));
                    assert(after[kept.index_of(slot)] == slot);
                } else {
                    assert(after[after.len() - 1] == slot);
                }
            }
        }
        assert(after.no_duplicates()) by {
            assert forall|i: int, j: int| 0 <= i < after.len() && 0 <= j < after.len() && i
                != j implies after[i] != after[j] by {
                if i < kept.len() && j < kept.len() {
                    assert(kept[i] != kept[j]);
                } else if i < kept.len() {
                    assert(kept.contains(kept[i]));
                } else if j < kept.len() {
                    assert(kept.contains(kept[j]));
                }
            }
        }
        if !slots.contains(id) {
            assert(!rest.contains(id)) by {
                if rest.contains(id) {
                    assert(slots[rest.index_of(id)] == id);
                }
            }
            assert(slots[slots.len() - 1] != id);
            assert(after =~= slots);
        }
    }
}

/// The stickers, their places, and what the drawing thread is still to be told.
pub struct Registry {
    pub stickers: Vec<Sticker>,
    /// Who plays, in the order in which they began.
    pub slots: Vec<u64>,
    pub next_id: u64,
    /// Whether the settings let stickers play.
    pub enabled: bool,
    /// Whether the desktop lets anything move.
    pub animations: bool,
    pub commands: Vec<Command>,
}

impl Registry {
    /// Whether stickers may play at all.
    pub open spec fn on(self) -> bool {
        self.enabled && self.animations
    }

    /// At most six stickers play, each once, and each of them is on the screen and
    /// is to play. Nothing plays where nothing may, and no sticker waits while a
    /// place is free.
    pub open spec fn well_formed(self) -> bool {
        &&& self.consistent()
        &&& !self.on() ==> self.slots@.len() == 0
        &&& self.on() && self.slots@.len() < MAX_ANIMATING ==> forall|id: u64|
            !#[trigger] waits(self.stickers@, self.slots@, id)
    }

    /// What holds also while a place is being given away.
    pub open spec fn consistent(self) -> bool {
        &&& self.slots@.len() <= MAX_ANIMATING
        &&& self.slots@.no_duplicates()
        &&& forall|i: int|
            0 <= i < self.slots@.len() ==> wanted(self.stickers@, #[trigger] self.slots@[i])
        &&& forall|i: int|
            0 <= i < self.stickers@.len() ==> (#[trigger] self.stickers@[i]).id < self.next_id
        &&& forall|i: int, j: int|
            0 <= i < j < self.stickers@.len() ==> (#[trigger] self.stickers@[i]).id != (
            #[trigger] self.stickers@[j]).id
    }

    pub fn new(enabled: bool, animations: bool) -> (registry: Registry)
        ensures
            registry.well_formed(),
            registry.stickers@.len() == 0,
            registry.slots@.len() == 0,
            registry.next_id == 1,
            registry.enabled == enabled,
            registry.animations == animations,
            registry.commands@.len() == 0,
    {
        Registry {
            stickers: Vec::new(),
            slots: Vec::new(),
            next_id: 1,
            enabled,
            animations,
            commands: Vec::new(),
        }
    }

    fn place(&self, id: u64) -> (at: Option<usize>)
        ensures
            match at {
                Some(at) => at < self.stickers@.len() && self.stickers@[at as int].id == id,
                None => !registered(self.stickers@, id),
            },
    {
        let mut at: usize = 0;
        while at < self.stickers.len()
            invariant
                at <= self.stickers@.len(),
                forall|j: int| 0 <= j < at ==> (#[trigger] self.stickers@[j]).id != id,
            decreases self.stickers@.len() - at,
        {
            if self.stickers[at].id == id {
                return Some(at);
            }
            at += 1;
        }
        None
    }

    fn holds_slot(&self, id: u64) -> (held: bool)
        ensures
            held == self.slots@.contains(id),
    {
        let mut i: usize = 0;
        while i < self.slots.len()
            invariant
                i <= self.slots@.len(),
                forall|j: int| 0 <= j < i ==> self.slots@[j] != id,
            decreases self.slots@.len() - i,
        {
            if self.slots[i] == id {
                return true;
            }
            i += 1;
        }
        false
    }

    /// Takes a sticker in that does not play yet. Returns its id.
    pub fn register(&mut self) -> (id: u64)
        requires
            old(self).well_formed(),
            old(self).next_id < u64::MAX,
        ensures
            final(self).well_formed(),
            id == old(self).next_id,
            final(self).next_id == id + 1,
            final(self).stickers@ == old(self).stickers@.push(
                (Sticker { id, wants: false, ready: false, frame: 0, frames: 0, error: None }),
            ),
            *final(self) == (Registry {
                stickers: final(self).stickers,
                next_id: final(self).next_id,
                ..*old(self)
            }),
    {
        let id = self.next_id;
        self.next_id = id + 1;
        let ghost before = self.stickers@;
        self.stickers.push(
            Sticker { id, wants: false, ready: false, frame: 0, frames: 0, error: None },
        );
        proof {
            let after = self.stickers@;
            assert(after.drop_last() =~= before);
            assert forall|other: u64| #[trigger] wanted(after, other) <==> wanted(before, other) by {
                lemma_pushed_wanted(before, after, other);
            }
            assert forall|i: int| 0 <= i < self.slots@.len() implies wanted(
                after,
                #[trigger] self.slots@[i],
            ) by {
                assert(wanted(before, self.slots@[i]));
            }
            assert forall|i: int, j: int| 0 <= i < j < after.len() implies (#[trigger] after[i]).id
                != (#[trigger] after[j]).id by {
                if j < before.len() {
                    assert(before[i].id != before[j].id);
                }
            }
            if self.on() && self.slots@.len() < MAX_ANIMATING {
                assert forall|other: u64| !#[trigger] waits(after, self.slots@, other) by {
                    assert(!waits(before, self.slots@, other));
                }
            }
        }
        id
    }

    /// Gives the free places to the stickers that wait, the first one first.
    fn fill_slots(&mut self)
        requires
            old(self).consistent(),
        ensures
            final(self).consistent(),
            final(self).slots@ == (if old(self).on() {
                filled(old(self).stickers@, old(self).slots@)
            } else {
                old(self).slots@
            }),
            final(self).commands@ == old(self).commands@ + plays(
                final(self).slots@.skip(old(self).slots@.len() as int),
            ),
            old(self).on() && final(self).slots@.len() < MAX_ANIMATING ==> forall|id: u64|
                !#[trigger] waits(final(self).stickers@, final(self).slots@, id),
            *final(self) == (Registry {
                slots: final(self).slots,
                commands: final(self).commands,
                ..*old(self)
            }),
    {
        let ghost stickers = self.stickers@;
        let ghost slots = self.slots@;
        let ghost commands = self.commands@;
        proof {
            lemma_filled(stickers, slots);
            assert(slots.skip(slots.len() as int) =~= Seq::<u64>::empty());
            assert(commands + plays(Seq::<u64>::empty()) =~= commands);
        }
        if !self.enabled || !self.animations {
            return;
        }
        loop
            invariant
                self.consistent(),
                *self == (Registry { slots: self.slots, commands: self.commands, ..*old(self) }),
                stickers == old(self).stickers@,
                slots == old(self).slots@,
                commands == old(self).commands@,
                slots.is_prefix_of(self.slots@),
                filled(stickers, self.slots@) == filled(stickers, slots),
                self.commands@ == commands + plays(self.slots@.skip(slots.len() as int)),
            ensures
                self.slots@ == filled(stickers, slots),
            decreases MAX_ANIMATING - self.slots@.len(),
        {
            if self.slots.len() >= MAX_ANIMATING {
                break;
            }
            match self.candidate() {
                None => {
                    break;
                },
                Some(id) => {
                    let ghost now = self.slots@;
                    proof {
                        lemma_next_waiting(stickers, now);
                        assert(now.no_duplicates());
                        lemma_pushed_slot(now, id);
                    }
                    self.slots.push(id);
                    self.commands.push(Command::Play(id));
                    proof {
                        assert(slots.is_prefix_of(self.slots@)) by {
                            assert(self.slots@.subrange(0, slots.len() as int) =~= now.subrange(
                                0,
                                slots.len() as int,
                            ));
                        }
                        assert(self.slots@.skip(slots.len() as int) =~= now.skip(
                            slots.len() as int,
                        ).push(id));
                        assert(plays(now.skip(slots.len() as int).push(id)) =~= plays(
                            now.skip(slots.len() as int),
                        ).push(Command::Play(id)));
                        assert(self.commands@ =~= commands + plays(
                            self.slots@.skip(slots.len() as int),
                        ));
                        assert forall|i: int| 0 <= i < self.slots@.len() implies wanted(
                            self.stickers@,
                            #[trigger] self.slots@[i],
                        ) by {
                            if i < now.len() {
                                assert(wanted(self.stickers@, now[i]));
                            }
                        }
                    }
                },
            }
        }
    }

    /// The first sticker that waits.
    fn candidate(&self) -> (id: Option<u64>)
        ensures
            id == next_waiting(self.stickers@, self.slots@),
    {
        let mut first: Option<u64> = None;
        let mut i: usize = 0;
        assert(self.stickers@.take(0) =~= Seq::<Sticker>::empty());
        while i < self.stickers.len()
            invariant
                i <= self.stickers@.len(),
                first == next_waiting(self.stickers@.take(i as int), self.slots@),
            decreases self.stickers@.len() - i,
        {
            assert(self.stickers@.take(i + 1).drop_last() =~= self.stickers@.take(i as int));
            let id = self.stickers[i].id;
            let sooner = match first {
                None => true,
                Some(earlier) => id < earlier,
            };
            if self.stickers[i].wants && !self.holds_slot(id) && sooner {
                first = Some(id);
            }
            i += 1;
        }
        assert(self.stickers@.take(i as int) =~= self.stickers@);
        first
    }

    /// Takes a sticker's place away. Returns whether it had one.
    fn vacate(&mut self, id: u64) -> (held: bool)
        requires
            old(self).slots@.no_duplicates(),
        ensures
            held == old(self).slots@.contains(id),
            final(self).slots@ == vacated(old(self).slots@, id),
            !held ==> *final(self) == *old(self),
            *final(self) == (Registry { slots: final(self).slots, ..*old(self) }),
    {
        let ghost keep = others(id);
        let mut rest: Vec<u64> = Vec::new();
        let mut held = false;
        let mut i: usize = 0;
        proof {
            reveal(Seq::filter);
            assert(self.slots@.take(0) =~= Seq::<u64>::empty());
        }
        while i < self.slots.len()
            invariant
                i <= self.slots@.len(),
                keep == others(id),
                *self == *old(self),
                rest@ == self.slots@.take(i as int).filter(keep),
                held == self.slots@.take(i as int).contains(id),
            decreases self.slots@.len() - i,
        {
            proof {
                reveal(Seq::filter);
                let now = self.slots@.take(i as int);
                let next = self.slots@.take(i + 1);
                assert(next.drop_last() =~= now);
                assert(next =~= now.push(self.slots@[i as int]));
                if now.contains(id) {
                    assert(next[now.index_of(id)] == id);
                }
                if next.contains(id) && self.slots@[i as int] != id {
                    assert(now[next.index_of(id)] == id);
                }
                assert(next[i as int] == self.slots@[i as int]);
            }
            if self.slots[i] != id {
                rest.push(self.slots[i]);
            } else {
                held = true;
            }
            i += 1;
        }
        assert(self.slots@.take(i as int) =~= self.slots@);
        proof {
            lemma_vacated(self.slots@, id);
        }
        if held {
            self.slots = rest;
        }
        held
    }

    /// What taking a place away leads to: another sticker gets it.
    pub open spec fn released(self, before: Registry, id: u64) -> bool {
        let left = vacated(before.slots@, id);
        if !before.slots@.contains(id) {
            self == before
        } else {
            &&& self.slots@ == (if before.on() { filled(before.stickers@, left) } else { left })
            &&& self.commands@ == before.commands@.push(Command::Pause(id)) + plays(
                self.slots@.skip(left.len() as int),
            )
            &&& self == (Registry { slots: self.slots, commands: self.commands, ..before })
        }
    }

    /// Stops a sticker, and gives its place to the next. `self` is as before but for
    /// the wish of that sticker.
    fn release(&mut self, id: u64)
        requires
            old(self).consistent_but(id),
            old(self).slots@.contains(id) || (old(self).consistent() && (old(self).on() && old(
                self,
            ).slots@.len() < MAX_ANIMATING ==> forall|other: u64|
                !#[trigger] waits(old(self).stickers@, old(self).slots@, other))),
        ensures
            final(self).consistent(),
            final(self).released(*old(self), id),
            old(self).on() && final(self).slots@.len() < MAX_ANIMATING ==> forall|other: u64|
                !#[trigger] waits(final(self).stickers@, final(self).slots@, other),
            !old(self).on() ==> final(self).slots@ == vacated(old(self).slots@, id),
    {
        proof {
            lemma_vacated(self.slots@, id);
        }
        let ghost before = self.slots@;
        let held = self.vacate(id);
        if held {
            self.commands.push(Command::Pause(id));
            assert forall|i: int| 0 <= i < self.slots@.len() implies wanted(
                self.stickers@,
                #[trigger] self.slots@[i],
            ) by {
                let slot = self.slots@[i];
                assert(self.slots@.contains(slot));
                let p = before.index_of(slot);
                assert(before[p] == slot);
            }
            self.fill_slots();
            proof {
                if !old(self).on() {
                    assert(self.slots@.skip(self.slots@.len() as int) =~= Seq::<u64>::empty());
                }
            }
        }
    }

    /// Whether a sticker plays.
    pub fn is_animating(&self, id: u64) -> (plays: bool)
        ensures
            plays == self.slots@.contains(id),
    {
        self.holds_slot(id)
    }

    /// Whether a sticker is on the screen.
    pub fn is_alive(&self, id: u64) -> (alive: bool)
        ensures
            alive == registered(self.stickers@, id),
    {
        self.place(id).is_some()
    }

    /// How many stickers play.
    pub fn animating_count(&self) -> (count: usize)
        ensures
            count == self.slots@.len(),
    {
        self.slots.len()
    }

    /// How many stickers are on the screen.
    pub fn registered_count(&self) -> (count: usize)
        ensures
            count == self.stickers@.len(),
    {
        self.stickers.len()
    }

    /// Whether the settings let stickers play.
    pub fn animated_stickers_enabled(&self) -> (enabled: bool)
        ensures
            enabled == self.enabled,
    {
        self.enabled
    }

    /// What the drawing thread is to be told, in order.
    pub fn take_commands(&mut self) -> (commands: Vec<Command>)
        ensures
            commands == old(self).commands,
            final(self).commands@.len() == 0,
            *final(self) == (Registry { commands: final(self).commands, ..*old(self) }),
    {
        let mut commands: Vec<Command> = Vec::new();
        std::mem::swap(&mut commands, &mut self.commands);
        commands
    }

    /// A sticker that is on the screen is to play, or to stop.
    pub fn set_playing(&mut self, id: u64, playing: bool)
        requires
            old(self).well_formed(),
            registered(old(self).stickers@, id),
        ensures
            final(self).well_formed(),
            wanted(old(self).stickers@, id) == playing ==> *final(self) == *old(self),
            wanted(old(self).stickers@, id) != playing ==> final(self).stickers@ == wished(
                old(self).stickers@,
                id,
                playing,
            ),
            !wanted(old(self).stickers@, id) && playing ==> {
                let granted = old(self).on() && old(self).slots@.len() < MAX_ANIMATING;
                &&& final(self).slots@ == (if granted {
                    old(self).slots@.push(id)
                } else {
                    old(self).slots@
                })
                &&& final(self).commands@ == (if granted {
                    old(self).commands@.push(Command::Play(id))
                } else {
                    old(self).commands@
                })
            },
            wanted(old(self).stickers@, id) && !playing ==> final(self).released(
                Registry { stickers: final(self).stickers, ..*old(self) },
                id,
            ),
            *final(self) == (Registry {
                stickers: final(self).stickers,
                slots: final(self).slots,
                commands: final(self).commands,
                ..*old(self)
            }),
    {
        let at = match self.place(id) {
            Some(at) => at,
            None => return,
        };
        let ghost before = self.stickers@;
        let ghost slots = self.slots@;
        proof {
            lemma_wanted_at(before, at as int);
        }
        if self.stickers[at].wants == playing {
            return;
        }
        let was = &self.stickers[at];
        let changed = Sticker {
            id,
            wants: playing,
            ready: was.ready,
            frame: was.frame,
            frames: was.frames,
            error: was.error(),
        };
        self.stickers.set(at, changed);
        let ghost after = self.stickers@;
        proof {
            lemma_wished(before, after, at as int, playing);
            assert forall|i: int, j: int| 0 <= i < j < after.len() implies (#[trigger] after[i]).id
                != (#[trigger] after[j]).id by {
                assert(before[i].id != before[j].id);
            }
            assert forall|i: int| 0 <= i < slots.len() && slots[i] != id implies wanted(
                after,
                #[trigger] slots[i],
            ) by {
                assert(wanted(before, slots[i]));
                assert(wanted(after, slots[i]) <==> wanted(before, slots[i]));
            }
        }
        if playing {
            proof {
                if slots.contains(id) {
                    assert(wanted(before, slots[slots.index_of(id)]));
                }
                assert forall|i: int| 0 <= i < slots.len() implies wanted(
                    after,
                    #[trigger] slots[i],
                ) by {
                    assert(slots.contains(slots[i]));
                }
            }
            if self.enabled && self.animations && self.slots.len() < MAX_ANIMATING {
                proof {
                    lemma_pushed_slot(slots, id);
                }
                self.slots.push(id);
                self.commands.push(Command::Play(id));
                proof {
                    let now = self.slots@;
                    assert forall|i: int| 0 <= i < now.len() implies wanted(
                        after,
                        #[trigger] now[i],
                    ) by {
                        if i < slots.len() {
                            assert(wanted(after, slots[i]));
                        }
                    }
                    assert forall|other: u64| !#[trigger] waits(after, now, other) by {
                        if other == id {
                            assert(now[slots.len() as int] == id);
                        } else if waits(after, now, other) {
                            assert(!slots.contains(other)) by {
                                if slots.contains(other) {
                                    assert(now[slots.index_of(other)] == other);
                                }
                            }
                            assert(waits(before, slots, other));
                        }
                    }
                }
            }
        } else {
            proof {
                if !slots.contains(id) {
                    assert forall|i: int| 0 <= i < slots.len() implies wanted(
                        after,
                        #[trigger] slots[i],
                    ) by {
                        assert(slots.contains(slots[i]));
                    }
                    if self.on() && slots.len() < MAX_ANIMATING {
                        assert forall|other: u64| !#[trigger] waits(after, slots, other) by {
                            assert(!waits(before, slots, other));
                        }
                    }
                }
            }
            self.release(id);
            proof {
                if !old(self).on() {
                    lemma_vacated(slots, id);
                }
            }
        }
    }

    /// Gives places away, or takes all away, after it changed whether stickers may
    /// play.
    fn refresh(&mut self)
        requires
            old(self).consistent(),
        ensures
            final(self).well_formed(),
            final(self).refreshed(*old(self)),
    {
        if self.enabled && self.animations {
            self.fill_slots();
            return;
        }
        let ghost slots = self.slots@;
        let ghost commands = self.commands@;
        let mut i: usize = 0;
        assert(commands + pauses(slots.take(0)) =~= commands);
        while i < self.slots.len()
            invariant
                i <= slots.len(),
                self.slots@ == slots,
                commands == old(self).commands@,
                *self == (Registry { commands: self.commands, ..*old(self) }),
                self.commands@ == commands + pauses(slots.take(i as int)),
            decreases slots.len() - i,
        {
            self.commands.push(Command::Pause(self.slots[i]));
            assert(slots.take(i + 1) =~= slots.take(i as int).push(slots[i as int]));
            assert(pauses(slots.take(i + 1)) =~= pauses(slots.take(i as int)).push(
                Command::Pause(slots[i as int]),
            ));
            assert(self.commands@ =~= commands + pauses(slots.take(i + 1)));
            i += 1;
        }
        assert(slots.take(i as int) =~= slots);
        self.slots = Vec::new();
    }

    /// What a change of whether stickers may play leads to.
    pub open spec fn refreshed(self, before: Registry) -> bool {
        &&& self.slots@ == (if before.on() {
            filled(before.stickers@, before.slots@)
        } else {
            Seq::empty()
        })
        &&& self.commands@ == before.commands@ + (if before.on() {
            plays(self.slots@.skip(before.slots@.len() as int))
        } else {
            pauses(before.slots@)
        })
        &&& self == (Registry { slots: self.slots, commands: self.commands, ..before })
    }

    /// The settings let stickers play, or not.
    pub fn set_animated_stickers_enabled(&mut self, enabled: bool)
        requires
            old(self).well_formed(),
        ensures
            final(self).well_formed(),
            enabled == old(self).enabled ==> *final(self) == *old(self),
            enabled != old(self).enabled ==> final(self).refreshed(
                Registry { enabled, ..*old(self) },
            ),
    {
        if self.enabled == enabled {
            return;
        }
        self.enabled = enabled;
        self.refresh();
    }

    /// The desktop lets things move, or not.
    pub fn set_animations(&mut self, animations: bool)
        requires
            old(self).well_formed(),
        ensures
            final(self).well_formed(),
            final(self).refreshed(Registry { animations, ..*old(self) }),
    {
        self.animations = animations;
        self.refresh();
    }

    /// What it leads to that a sticker is gone.
    pub open spec fn forgotten(self, before: Registry, id: u64) -> bool {
        let left = vacated(before.slots@, id);
        &&& self.stickers@ == remaining(before.stickers@, id)
        &&& self.slots@ == (if before.slots@.contains(id) && before.on() {
            filled(self.stickers@, left)
        } else {
            left
        })
        &&& self.commands@ == before.commands@.push(Command::Drop(id)) + plays(
            self.slots@.skip(left.len() as int),
        )
        &&& self == (Registry {
            stickers: self.stickers,
            slots: self.slots,
            commands: self.commands,
            ..before
        })
    }

    /// A sticker is gone. Its place goes to the next.
    pub fn forget(&mut self, id: u64)
        requires
            old(self).well_formed(),
        ensures
            final(self).well_formed(),
            final(self).forgotten(*old(self), id),
    {
        let ghost before = self.stickers@;
        let ghost slots = self.slots@;
        self.remove_sticker(id);
        let ghost after = self.stickers@;
        proof {
            lemma_vacated(slots, id);
            lemma_remaining(before, id);
        }
        let held = self.vacate(id);
        let ghost left = self.slots@;
        self.commands.push(Command::Drop(id));
        proof {
            assert forall|i: int| 0 <= i < left.len() implies wanted(after, #[trigger] left[i]) by {
                assert(left.contains(left[i]));
                let p = slots.index_of(left[i]);
                assert(wanted(before, slots[p]));
            }
            assert(left.skip(left.len() as int) =~= Seq::<u64>::empty());
            assert(self.commands@ + plays(Seq::<u64>::empty()) =~= self.commands@);
            if !held && self.on() && left.len() < MAX_ANIMATING {
                assert forall|other: u64| !#[trigger] waits(after, left, other) by {
                    assert(!waits(before, slots, other));
                }
            }
        }
        if held {
            self.fill_slots();
        }
    }

    fn remove_sticker(&mut self, id: u64)
        requires
            forall|i: int, j: int|
                0 <= i < j < old(self).stickers@.len() ==> (#[trigger] old(self).stickers@[i]).id
                    != (#[trigger] old(self).stickers@[j]).id,
        ensures
            final(self).stickers@ == remaining(old(self).stickers@, id),
            *final(self) == (Registry { stickers: final(self).stickers, ..*old(self) }),
    {
        let ghost before = self.stickers@;
        match self.place(id) {
            Some(at) => {
                let _gone = self.stickers.remove(at);
                proof {
                    lemma_remaining_at(before, at as int);
                }
            },
            None => {
                proof {
                    lemma_remaining_all(before, id);
                }
            },
        }
    }

    /// A frame of a sticker was drawn. Returns whether it is the first one that is
    /// shown, or nothing where the sticker is gone.
    pub fn deliver_frame(&mut self, id: u64, index: usize) -> (first: Option<bool>)
        requires
            old(self).well_formed(),
        ensures
            final(self).well_formed(),
            match first {
                None => !registered(old(self).stickers@, id) && final(self).forgotten(
                    *old(self),
                    id,
                ),
                Some(first) => {
                    &&& registered(old(self).stickers@, id)
                    &&& final(self).stickers@ == framed(old(self).stickers@, id, index)
                    &&& first == !is_ready(old(self).stickers@, id)
                    &&& *final(self) == (Registry {
                        stickers: final(self).stickers,
                        ..*old(self)
                    })
                },
            },
    {
        let at = match self.place(id) {
            Some(at) => at,
            None => {
                self.forget(id);
                return None;
            },
        };
        let ghost before = self.stickers@;
        let was = &self.stickers[at];
        let first = !was.ready;
        let changed = Sticker {
            id,
            wants: was.wants,
            ready: true,
            frame: index,
            frames: was.frames.wrapping_add(1),
            error: was.error(),
        };
        self.stickers.set(at, changed);
        proof {
            let after = self.stickers@;
            lemma_same_wishes(before, after);
            assert forall|i: int, j: int| 0 <= i < j < after.len() implies (#[trigger] after[i]).id
                != (#[trigger] after[j]).id by {
                assert(before[i].id != before[j].id);
            }
            assert forall|i: int| 0 <= i < after.len() implies (#[trigger] after[i]).id
                == before[i].id by {}
            assert(after =~= framed(before, id, index)) by {
                assert forall|i: int| 0 <= i < after.len() implies #[trigger] after[i] == framed(
                    before,
                    id,
                    index,
                )[i] by {
                    if i < at {
                        assert(before[i].id != before[at as int].id);
                    } else if i > at {
                        assert(before[at as int].id != before[i].id);
                    }
                }
            }
            lemma_ready_at(before, at as int);
            self.lemma_kept(*old(self));
        }
        Some(first)
    }

    /// A sticker cannot be drawn. Returns whether it is still on the screen.
    pub fn deliver_error(&mut self, id: u64, message: String) -> (shown: bool)
        requires
            old(self).well_formed(),
        ensures
            final(self).well_formed(),
            shown == registered(old(self).stickers@, id),
            shown ==> {
                &&& final(self).stickers@ == broken(old(self).stickers@, id, message)
                &&& (Registry { stickers: old(self).stickers, ..*final(self) }).released(
                    *old(self),
                    id,
                )
            },
            !shown ==> final(self).forgotten(*old(self), id),
    {
        proof {
            lemma_vacated(self.slots@, id);
        }
        let ghost slots = self.slots@;
        let at = match self.place(id) {
            Some(at) => at,
            None => {
                self.forget(id);
                return false;
            },
        };
        self.release(id);
        let ghost middle = *self;
        let ghost before = self.stickers@;
        let was = &self.stickers[at];
        let changed = Sticker {
            id,
            wants: was.wants,
            ready: was.ready,
            frame: was.frame,
            frames: was.frames,
            error: Some(message),
        };
        self.stickers.set(at, changed);
        proof {
            let after = self.stickers@;
            lemma_same_wishes(before, after);
            assert forall|i: int, j: int| 0 <= i < j < after.len() implies (#[trigger] after[i]).id
                != (#[trigger] after[j]).id by {
                assert(before[i].id != before[j].id);
            }
            assert(after =~= broken(before, id, message)) by {
                assert forall|i: int| 0 <= i < after.len() implies #[trigger] after[i] == broken(
                    before,
                    id,
                    message,
                )[i] by {
                    if i < at {
                        assert(before[i].id != before[at as int].id);
                    } else if i > at {
                        assert(before[at as int].id != before[i].id);
                    }
                }
            }
            self.lemma_kept(middle);
        }
        true
    }

    /// What a sticker shows changes nothing about who plays.
    proof fn lemma_kept(self, before: Registry)
        requires
            before.well_formed(),
            self == (Registry { stickers: self.stickers, ..before }),
            self.stickers@.len() == before.stickers@.len(),
            forall|i: int|
                0 <= i < self.stickers@.len() ==> (#[trigger] self.stickers@[i]).id
                    == before.stickers@[i].id && self.stickers@[i].wants
                    == before.stickers@[i].wants,
        ensures
            self.well_formed(),
    {
        lemma_same_wishes(before.stickers@, self.stickers@);
        assert forall|i: int| 0 <= i < self.slots@.len() implies wanted(
            self.stickers@,
            #[trigger] self.slots@[i],
        ) by {
            assert(wanted(before.stickers@, before.slots@[i]));
        }
        assert forall|i: int, j: int| 0 <= i < j < self.stickers@.len() implies (
        #[trigger] self.stickers@[i]).id != (#[trigger] self.stickers@[j]).id by {
            assert(before.stickers@[i].id != before.stickers@[j].id);
        }
        assert forall|i: int| 0 <= i < self.stickers@.len() implies (#[trigger] self.stickers@[i]).id
            < self.next_id by {
            assert(before.stickers@[i].id < before.next_id);
        }
        if self.on() && self.slots@.len() < MAX_ANIMATING {
            assert forall|id: u64| !#[trigger] waits(self.stickers@, self.slots@, id) by {
                assert(!waits(before.stickers@, before.slots@, id));
            }
        }
    }

    /// What holds while the wish of one sticker has changed.
    pub open spec fn consistent_but(self, id: u64) -> bool {
        &&& self.slots@.len() <= MAX_ANIMATING
        &&& self.slots@.no_duplicates()
        &&& forall|i: int|
            0 <= i < self.slots@.len() && self.slots@[i] != id ==> wanted(
                self.stickers@,
                #[trigger] self.slots@[i],
            )
        &&& forall|i: int|
            0 <= i < self.stickers@.len() ==> (#[trigger] self.stickers@[i]).id < self.next_id
        &&& forall|i: int, j: int|
            0 <= i < j < self.stickers@.len() ==> (#[trigger] self.stickers@[i]).id != (
            #[trigger] self.stickers@[j]).id
    }
}

/// The stickers with the wish of one changed.
pub open spec fn wished(stickers: Seq<Sticker>, id: u64, playing: bool) -> Seq<Sticker> {
    stickers.map_values(
        |sticker: Sticker|
            if sticker.id == id {
                Sticker { wants: playing, ..sticker }
            } else {
                sticker
            },
    )
}

/// The stickers once a frame of one is shown.
pub open spec fn framed(stickers: Seq<Sticker>, id: u64, index: usize) -> Seq<Sticker> {
    stickers.map_values(
        |sticker: Sticker|
            if sticker.id == id {
                Sticker {
                    ready: true,
                    frame: index,
                    frames: sticker.frames.wrapping_add(1),
                    ..sticker
                }
            } else {
                sticker
            },
    )
}

/// The stickers once one cannot be drawn.
pub open spec fn broken(stickers: Seq<Sticker>, id: u64, message: String) -> Seq<Sticker> {
    stickers.map_values(
        |sticker: Sticker|
            if sticker.id == id {
                Sticker { error: Some(message), ..sticker }
            } else {
                sticker
            },
    )
}

/// Whether a frame of a sticker was shown.
pub open spec fn is_ready(stickers: Seq<Sticker>, id: u64) -> bool {
    exists|at: int|
        0 <= at < stickers.len() && (#[trigger] stickers[at]).id == id && stickers[at].ready
}

/// Which stickers are not the given one.
pub open spec fn stays(id: u64) -> spec_fn(Sticker) -> bool {
    |sticker: Sticker| sticker.id != id
}

/// The stickers without one.
pub open spec fn remaining(stickers: Seq<Sticker>, id: u64) -> Seq<Sticker> {
    stickers.filter(stays(id))
}

proof fn lemma_wanted_at(stickers: Seq<Sticker>, at: int)
    requires
        0 <= at < stickers.len(),
        forall|i: int, j: int|
            0 <= i < j < stickers.len() ==> (#[trigger] stickers[i]).id != (
            #[trigger] stickers[j]).id,
    ensures
        wanted(stickers, stickers[at].id) == stickers[at].wants,
{
    let id = stickers[at].id;
    if wanted(stickers, id) {
        let other = choose|other: int|
            0 <= other < stickers.len() && (#[trigger] stickers[other]).id == id
                && stickers[other].wants;
        if other < at {
            assert(stickers[other].id != stickers[at].id);
        } else if at < other {
            assert(stickers[at].id != stickers[other].id);
        }
    }
}

proof fn lemma_ready_at(stickers: Seq<Sticker>, at: int)
    requires
        0 <= at < stickers.len(),
        forall|i: int, j: int|
            0 <= i < j < stickers.len() ==> (#[trigger] stickers[i]).id != (
            #[trigger] stickers[j]).id,
    ensures
        is_ready(stickers, stickers[at].id) == stickers[at].ready,
{
    let id = stickers[at].id;
    if is_ready(stickers, id) {
        let other = choose|other: int|
            0 <= other < stickers.len() && (#[trigger] stickers[other]).id == id
                && stickers[other].ready;
        if other < at {
            assert(stickers[other].id != stickers[at].id);
        } else if at < other {
            assert(stickers[at].id != stickers[other].id);
        }
    }
}

proof fn lemma_same_wishes(before: Seq<Sticker>, after: Seq<Sticker>)
    requires
        after.len() == before.len(),
        forall|i: int|
            0 <= i < after.len() ==> (#[trigger] after[i]).id == before[i].id && after[i].wants
                == before[i].wants,
    ensures
        forall|id: u64| #[trigger] wanted(after, id) <==> wanted(before, id),
{
    assert forall|id: u64| #[trigger] wanted(after, id) <==> wanted(before, id) by {
        if wanted(after, id) {
            let at = choose|at: int|
                0 <= at < after.len() && (#[trigger] after[at]).id == id && after[at].wants;
            assert(before[at].id == id);
        }
        if wanted(before, id) {
            let at = choose|at: int|
                0 <= at < before.len() && (#[trigger] before[at]).id == id && before[at].wants;
            assert(after[at].id == id);
        }
    }
}

proof fn lemma_wished(before: Seq<Sticker>, after: Seq<Sticker>, at: int, playing: bool)
    requires
        0 <= at < before.len(),
        after == before.update(at, after[at]),
        after[at] == (Sticker { wants: playing, ..before[at] }),
        forall|i: int, j: int|
            0 <= i < j < before.len() ==> (#[trigger] before[i]).id != (#[trigger] before[j]).id,
    ensures
        after == wished(before, before[at].id, playing),
        wanted(after, before[at].id) == playing,
        forall|id: u64|
            id != before[at].id ==> (#[trigger] wanted(after, id) <==> wanted(before, id)),
{
    let changed = before[at].id;
    assert(after =~= wished(before, changed, playing)) by {
        assert forall|i: int| 0 <= i < after.len() implies #[trigger] after[i] == wished(
            before,
            changed,
            playing,
        )[i] by {
            if i < at {
                assert(before[i].id != before[at].id);
            } else if i > at {
                assert(before[at].id != before[i].id);
            }
        }
    }
    assert forall|i: int, j: int| 0 <= i < j < after.len() implies (#[trigger] after[i]).id != (
    #[trigger] after[j]).id by {
        assert(before[i].id != before[j].id);
    }
    lemma_wanted_at(after, at);
    assert forall|id: u64| id != changed implies (#[trigger] wanted(after, id) <==> wanted(
        before,
        id,
    )) by {
        if wanted(after, id) {
            let p = choose|p: int|
                0 <= p < after.len() && (#[trigger] after[p]).id == id && after[p].wants;
            assert(before[p].id == id);
        }
        if wanted(before, id) {
            let p = choose|p: int|
                0 <= p < before.len() && (#[trigger] before[p]).id == id && before[p].wants;
            assert(after[p].id == id);
        }
    }
}

proof fn lemma_remaining_all(stickers: Seq<Sticker>, id: u64)
    requires
        forall|i: int| 0 <= i < stickers.len() ==> (#[trigger] stickers[i]).id != id,
    ensures
        remaining(stickers, id) == stickers,
    decreases stickers.len(),
{
    reveal(Seq::filter);
    if stickers.len() > 0 {
        let rest = stickers.drop_last();
        assert forall|i: int| 0 <= i < rest.len() implies (#[trigger] rest[i]).id != id by {
            assert(rest[i] == stickers[i]);
        }
        lemma_remaining_all(rest, id);
        assert(stickers[stickers.len() - 1].id != id);
        assert(remaining(stickers, id) =~= stickers);
    }
}

proof fn lemma_remaining_at(stickers: Seq<Sticker>, at: int)
    requires
        0 <= at < stickers.len(),
        forall|i: int, j: int|
            0 <= i < j < stickers.len() ==> (#[trigger] stickers[i]).id != (
            #[trigger] stickers[j]).id,
    ensures
        remaining(stickers, stickers[at].id) == stickers.remove(at),
    decreases stickers.len(),
{
    reveal(Seq::filter);
    let id = stickers[at].id;
    let rest = stickers.drop_last();
    assert forall|i: int, j: int| 0 <= i < j < rest.len() implies (#[trigger] rest[i]).id != (
    #[trigger] rest[j]).id by {
        assert(stickers[i].id != stickers[j].id);
    }
    if at == rest.len() {
        assert forall|i: int| 0 <= i < rest.len() implies (#[trigger] rest[i]).id != id by {
            assert(stickers[i].id != stickers[at].id);
        }
        lemma_remaining_all(rest, id);
        assert(stickers.remove(at) =~= rest);
    } else {
        assert(rest[at] == stickers[at]);
        lemma_remaining_at(rest, at);
        assert(stickers[at].id != stickers[stickers.len() - 1].id);
        assert(stickers.remove(at) =~= rest.remove(at).push(stickers.last()));
    }
}

proof fn lemma_remaining(stickers: Seq<Sticker>, id: u64)
    ensures
        forall|other: u64| #[trigger]
            wanted(remaining(stickers, id), other) <==> wanted(stickers, other) && other != id,
        forall|i: int|
            0 <= i < remaining(stickers, id).len() ==> exists|at: int|
                0 <= at < stickers.len() && #[trigger] stickers[at] == #[trigger] remaining(
                    stickers,
                    id,
                )[i],
        (forall|i: int, j: int|
            0 <= i < j < stickers.len() ==> (#[trigger] stickers[i]).id != (
            #[trigger] stickers[j]).id) ==> (forall|i: int, j: int|
            0 <= i < j < remaining(stickers, id).len() ==> (#[trigger] remaining(
                stickers,
                id,
            )[i]).id != (#[trigger] remaining(stickers, id)[j]).id),
    decreases stickers.len(),
{
    reveal(Seq::filter);
    let after = remaining(stickers, id);
    if stickers.len() > 0 {
        let rest = stickers.drop_last();
        let last = stickers.last();
        lemma_remaining(rest, id);
        let kept = remaining(rest, id);
        assert forall|i: int| 0 <= i < after.len() implies exists|at: int|
            0 <= at < stickers.len() && #[trigger] stickers[at] == #[trigger] after[i] by {
            if i < kept.len() {
                assert(kept[i] == after[i]);
                let at = choose|at: int|
                    0 <= at < rest.len() && #[trigger] rest[at] == kept[i];
                assert(stickers[at] == after[i]);
            } else {
                assert(stickers[stickers.len() - 1] == after[i]);
            }
        }
        assert forall|other: u64| #[trigger] wanted(after, other) <==> wanted(stickers, other)
            && other != id by {
            if wanted(after, other) {
                let p = choose|p: int|
                    0 <= p < after.len() && (#[trigger] after[p]).id == other && after[p].wants;
                if p < kept.len() {
                    assert(kept[p].id == other);
                    assert(wanted(kept, other));
                    let q = choose|q: int|
                        0 <= q < rest.len() && (#[trigger] rest[q]).id == other && rest[q].wants;
                    assert(stickers[q].id == other);
                } else {
                    assert(stickers[stickers.len() - 1].id == other);
                }
            }
            if wanted(stickers, other) && other != id {
                let p = choose|p: int|
                    0 <= p < stickers.len() && (#[trigger] stickers[p]).id == other
                        && stickers[p].wants;
                if p < rest.len() {
                    assert(rest[p].id == other);
                    assert(wanted(kept, other));
                    let q = choose|q: int|
                        0 <= q < kept.len() && (#[trigger] kept[q]).id == other && kept[q].wants;
                    assert(after[q].id == other);
                } else {
                    assert(after[after.len() - 1].id == other);
                }
            }
        }
        if forall|i: int, j: int|
            0 <= i < j < stickers.len() ==> (#[trigger] stickers[i]).id != (
            #[trigger] stickers[j]).id {
            assert forall|i: int, j: int| 0 <= i < j < rest.len() implies (#[trigger] rest[i]).id
                != (#[trigger] rest[j]).id by {
                assert(stickers[i].id != stickers[j].id);
            }
            assert forall|i: int, j: int| 0 <= i < j < after.len() implies (#[trigger] after[i]).id
                != (#[trigger] after[j]).id by {
                if j < kept.len() {
                    assert(kept[i].id != kept[j].id);
                } else {
                    let at = choose|at: int|
                        0 <= at < rest.len() && #[trigger] rest[at] == kept[i];
                    assert(kept[i] == after[i]);
                    assert(stickers[at].id != stickers[stickers.len() - 1].id);
                }
            }
        }
    }
}

/// When places are given away, whoever gets one was made before all that still wait,
/// and nobody waits while a place is free.
pub proof fn law_first_come_first_served(
    stickers: Seq<Sticker>,
    slots: Seq<u64>,
    granted: u64,
    waiting: u64,
)
    requires
        slots.no_duplicates(),
        slots.len() <= MAX_ANIMATING,
        filled(stickers, slots).contains(granted),
        !slots.contains(granted),
        waits(stickers, filled(stickers, slots), waiting),
    ensures
        granted < waiting,
        filled(stickers, slots).len() == MAX_ANIMATING,
        slots.is_prefix_of(filled(stickers, slots)),
{
    lemma_filled(stickers, slots);
    let after = filled(stickers, slots);
    let i = after.index_of(granted);
    if i < slots.len() {
        assert(after.subrange(0, slots.len() as int)[i] == after[i]);
        assert(slots[i] == granted);
    }
    let at = choose|at: int|
        0 <= at < stickers.len() && (#[trigger] stickers[at]).id == waiting && stickers[at].wants;
    assert(registered(stickers, waiting));
    assert(after[i] == granted);
}

proof fn lemma_pushed_wanted(before: Seq<Sticker>, after: Seq<Sticker>, id: u64)
    requires
        after.len() == before.len() + 1,
        after.drop_last() == before,
        !after.last().wants,
    ensures
        wanted(after, id) <==> wanted(before, id),
{
    if wanted(before, id) {
        let at = choose|at: int|
            0 <= at < before.len() && (#[trigger] before[at]).id == id && before[at].wants;
        assert(after.drop_last()[at] == after[at]);
        assert(after[at].id == id);
    }
    if wanted(after, id) {
        let at = choose|at: int|
            0 <= at < after.len() && (#[trigger] after[at]).id == id && after[at].wants;
        assert(after.drop_last()[at] == after[at]);
        assert(before[at].id == id);
    }
}

proof fn lemma_pushed_slot(slots: Seq<u64>, id: u64)
    requires
        slots.no_duplicates(),
        !slots.contains(id),
    ensures
        slots.push(id).no_duplicates(),
{
    let more = slots.push(id);
    assert forall|i: int, j: int| 0 <= i < more.len() && 0 <= j < more.len() && i
        != j implies more[i] != more[j] by {
        if i < slots.len() && j < slots.len() {
            assert(slots[i] != slots[j]);
        } else if i < slots.len() {
            assert(slots.contains(slots[i]));
        } else {
            assert(slots.contains(slots[j]));
        }
    }
}

} // verus!
