//! Animated stickers: which ones play, and which frame of each is due.
//!
//! One thread draws the frames of all stickers. It says through a [`Bus`] what it has
//! drawn; of each sticker only the latest frame waits there. At most six stickers
//! play at once.

use std::collections::{HashMap, HashSet};

use vstd::prelude::*;

verus! {

/// How large a sticker is in a message, in logical pixels.
pub const BUBBLE_SIZE: i32 = 256;

/// How large a sticker is in the picker, in logical pixels.
pub const CELL_SIZE: i32 = 96;

/// How many stickers play at once.
pub const MAX_ANIMATING: usize = 6;

/// How long a frame is shown at least, in nanoseconds.
pub const MIN_INTERVAL: u64 = 16_000_000;

/// How large a sticker is drawn at most.
pub const MAX_PIXELS: i32 = 512;

/// How large a sticker is drawn on a screen with some scale.
pub open spec fn pixels_of(size: int, scale: int) -> int {
    let wide = if size < 8 { 8 } else { size };
    let by = if scale < 1 { 1 } else if scale > 3 { 3 } else { scale };
    if wide * by > MAX_PIXELS {
        MAX_PIXELS as int
    } else {
        wide * by
    }
}

pub fn sticker_pixels(size: i32, scale: i32) -> (pixels: u32)
    ensures
        pixels == pixels_of(size as int, scale as int),
        8 <= pixels <= MAX_PIXELS,
{
    let wide: i64 = if size < 8 { 8 } else { size as i64 };
    let by: i64 = if scale < 1 { 1 } else if scale > 3 { 3 } else { scale as i64 };
    assert(8 <= wide * by <= 3 * wide) by (nonlinear_arith)
        requires
            8 <= wide,
            1 <= by <= 3,
    ;
    let pixels: i64 = wide * by;
    if pixels > MAX_PIXELS as i64 {
        MAX_PIXELS as u32
    } else {
        pixels as u32
    }
}

/// A frame that was drawn.
#[derive(Debug, PartialEq, Eq)]
pub struct Frame {
    pub index: usize,
    pub size: u32,
    pub data: Vec<u8>,
}

/// What was drawn and not yet shown.
pub struct Pending {
    pub frames: HashMap<u64, Frame>,
    pub errors: Vec<(u64, String)>,
}

impl Pending {
    pub fn new() -> (pending: Pending)
        ensures
            pending.frames@ == Map::<u64, Frame>::empty(),
            pending.errors@.len() == 0,
    {
        Pending { frames: HashMap::new(), errors: Vec::new() }
    }

    /// A frame was drawn. It takes the place of one that was not shown yet.
    pub fn frame(&mut self, id: u64, frame: Frame)
        ensures
            final(self).frames@ == old(self).frames@.insert(id, frame),
            final(self).errors == old(self).errors,
    {
        broadcast use vstd::std_specs::hash::group_hash_axioms;

        let _earlier = self.frames.insert(id, frame);
    }

    /// A sticker cannot be drawn. No frame of it will be shown any more.
    pub fn error(&mut self, id: u64, message: String)
        ensures
            final(self).frames@ == old(self).frames@.remove(id),
            final(self).errors@ == old(self).errors@.push((id, message)),
    {
        broadcast use vstd::std_specs::hash::group_hash_axioms;

        let _dropped = self.frames.remove(&id);
        self.errors.push((id, message));
    }

    /// Hands out all that waits.
    pub fn take(&mut self) -> (waiting: Pending)
        ensures
            waiting == *old(self),
            final(self).frames@ == Map::<u64, Frame>::empty(),
            final(self).errors@.len() == 0,
    {
        let mut waiting = Pending::new();
        std::mem::swap(&mut waiting, self);
        waiting
    }
}

/// The sending half of a channel.
#[verifier::external_type_specification]
#[verifier::external_body]
#[verifier::reject_recursive_types(T)]
pub struct ExSender<T>(async_channel::Sender<T>);

/// Calls `async_channel::Sender::try_send`, which never waits. Nothing is promised of
/// the result: it depends on what the other threads have done with the channel.
#[verifier::external_body]
fn try_wake(wake: &async_channel::Sender<()>) -> (sent: bool) {
    wake.try_send(()).is_ok()
}

/// What the drawing thread says through.
pub struct Bus {
    pub pending: Pending,
    pub wake: async_channel::Sender<()>,
}

impl Bus {
    pub fn new(wake: async_channel::Sender<()>) -> (bus: Bus)
        ensures
            bus.pending.frames@ == Map::<u64, Frame>::empty(),
            bus.pending.errors@.len() == 0,
            bus.wake == wake,
    {
        Bus { pending: Pending::new(), wake }
    }

    /// A frame was drawn. Whoever shows it is woken.
    pub fn frame(&mut self, id: u64, index: usize, size: u32, data: Vec<u8>)
        ensures
            final(self).pending.frames@ == old(self).pending.frames@.insert(
                id,
                Frame { index, size, data },
            ),
            final(self).pending.errors == old(self).pending.errors,
            final(self).wake == old(self).wake,
    {
        self.pending.frame(id, Frame { index, size, data });
        let _sent = try_wake(&self.wake);
    }

    /// A sticker cannot be drawn. Whoever shows it is woken.
    pub fn error(&mut self, id: u64, message: String)
        ensures
            final(self).pending.frames@ == old(self).pending.frames@.remove(id),
            final(self).pending.errors@ == old(self).pending.errors@.push((id, message)),
            final(self).wake == old(self).wake,
    {
        self.pending.error(id, message);
        let _sent = try_wake(&self.wake);
    }
}

/// A sticker that the drawing thread holds. Times are in nanoseconds.
#[derive(Debug, Clone, Copy, PartialEq, Eq, Structural)]
pub struct Live {
    pub id: u64,
    pub frames: usize,
    pub playhead: usize,
    pub interval: u64,
    pub due: u64,
    pub playing: bool,
}

/// What the drawing thread holds.
pub struct Stage {
    pub live: Vec<Live>,
    /// The stickers that are to play. One can be among them before it is loaded.
    pub wanted: HashSet<u64>,
}

/// What the drawing thread does next.
#[derive(Debug, Clone, Copy, PartialEq, Eq, Structural)]
pub enum Wait {
    /// A frame is due: only commands that are there already are taken.
    Poll,
    /// Waits for a command, at most for so many nanoseconds.
    AtMost(u64),
    /// Nothing plays: waits for a command.
    Forever,
}

/// A sticker after a point in time at which it may be due.
pub open spec fn stepped(live: Live, now: u64) -> Live {
    if live.playing && live.due <= now {
        Live {
            playhead: ((live.playhead + 1) % live.frames as int) as usize,
            due: if live.due + live.interval > now { (live.due + live.interval) as u64 } else { now },
            ..live
        }
    } else {
        live
    }
}

/// Which frames are due among the first `given` stickers.
pub open spec fn due_in(live: Seq<Live>, now: u64, given: int) -> Seq<(u64, usize)>
    decreases given,
{
    if given <= 0 {
        Seq::empty()
    } else {
        let earlier = due_in(live, now, given - 1);
        let last = live[given - 1];
        if last.playing && last.due <= now {
            earlier.push((last.id, stepped(last, now).playhead))
        } else {
            earlier
        }
    }
}

/// The earliest point in time at which a playing sticker is due.
pub open spec fn next_due_in(live: Seq<Live>) -> Option<u64>
    decreases live.len(),
{
    if live.len() == 0 {
        None
    } else {
        let earlier = next_due_in(live.drop_last());
        let last = live.last();
        if last.playing && (earlier is None || last.due < earlier->0) {
            Some(last.due)
        } else {
            earlier
        }
    }
}

/// Where the sticker with an id stands first, or how many there are.
pub open spec fn live_place(live: Seq<Live>, id: u64) -> int
    decreases live.len(),
{
    if live.len() == 0 {
        0
    } else {
        let earlier = live_place(live.drop_last(), id);
        if earlier < live.len() - 1 || live.last().id == id {
            earlier
        } else {
            live.len() as int
        }
    }
}

proof fn lemma_live_place(live: Seq<Live>, id: u64, at: int)
    requires
        0 <= at <= live.len(),
        forall|i: int| 0 <= i < at ==> (#[trigger] live[i]).id != id,
        at < live.len() ==> live[at].id == id,
    ensures
        live_place(live, id) == at,
    decreases live.len(),
{
    if live.len() > 0 {
        let rest = live.drop_last();
        assert forall|i: int| 0 <= i < at && i < rest.len() implies (#[trigger] rest[i]).id != id by {
            assert(rest[i] == live[i]);
        }
        if at < live.len() {
            lemma_live_place(rest, id, at);
        } else {
            assert(live[live.len() - 1].id != id);
            lemma_live_place(rest, id, at - 1);
        }
    }
}

impl Stage {
    /// Each sticker is held once and has a frame.
    pub open spec fn well_formed(self) -> bool {
        &&& forall|i: int| 0 <= i < self.live@.len() ==> (#[trigger] self.live@[i]).frames > 0
            && self.live@[i].playhead < self.live@[i].frames
        &&& forall|i: int, j: int|
            0 <= i < j < self.live@.len() ==> (#[trigger] self.live@[i]).id != (
            #[trigger] self.live@[j]).id
    }

    pub fn new() -> (stage: Stage)
        ensures
            stage.well_formed(),
            stage.live@.len() == 0,
            stage.wanted@ == Set::<u64>::empty(),
    {
        Stage { live: Vec::new(), wanted: HashSet::new() }
    }

    fn place(&self, id: u64) -> (at: usize)
        ensures
            at == live_place(self.live@, id),
            at <= self.live@.len(),
            at < self.live@.len() ==> self.live@[at as int].id == id,
            forall|i: int| 0 <= i < at ==> (#[trigger] self.live@[i]).id != id,
    {
        let mut at: usize = 0;
        while at < self.live.len()
            invariant_except_break
                at <= self.live@.len(),
                forall|i: int| 0 <= i < at ==> (#[trigger] self.live@[i]).id != id,
            ensures
                at <= self.live@.len(),
                at < self.live@.len() ==> self.live@[at as int].id == id,
                forall|i: int| 0 <= i < at ==> (#[trigger] self.live@[i]).id != id,
            decreases self.live@.len() - at,
        {
            if self.live[at].id == id {
                break;
            }
            at += 1;
        }
        proof {
            lemma_live_place(self.live@, id, at as int);
        }
        at
    }

    /// When a playing sticker is due next.
    pub fn next_due(&self) -> (due: Option<u64>)
        ensures
            due == next_due_in(self.live@),
    {
        let mut due: Option<u64> = None;
        let mut i: usize = 0;
        assert(self.live@.take(0) =~= Seq::<Live>::empty());
        while i < self.live.len()
            invariant
                i <= self.live@.len(),
                due == next_due_in(self.live@.take(i as int)),
            decreases self.live@.len() - i,
        {
            assert(self.live@.take(i + 1).drop_last() =~= self.live@.take(i as int));
            let last = self.live[i];
            let sooner = match due {
                None => true,
                Some(earlier) => last.due < earlier,
            };
            if last.playing && sooner {
                due = Some(last.due);
            }
            i += 1;
        }
        assert(self.live@.take(i as int) =~= self.live@);
        due
    }

    /// What to do next.
    pub fn wait(&self, now: u64) -> (wait: Wait)
        ensures
            wait == (match next_due_in(self.live@) {
                None => Wait::Forever,
                Some(due) => if due > now {
                    Wait::AtMost((due - now) as u64)
                } else {
                    Wait::Poll
                },
            }),
    {
        match self.next_due() {
            None => Wait::Forever,
            Some(due) => if due > now {
                Wait::AtMost(due - now)
            } else {
                Wait::Poll
            },
        }
    }

    /// A sticker was loaded, and its first frame was drawn.
    pub fn loaded(&mut self, id: u64, frames: usize, interval: u64, now: u64)
        requires
            old(self).well_formed(),
            now + interval_of(interval) <= u64::MAX,
        ensures
            final(self).well_formed(),
            final(self).wanted == old(self).wanted,
            ({
                let live = Live {
                    id,
                    frames: if frames == 0 { 1 } else { frames },
                    playhead: 0,
                    interval: interval_of(interval) as u64,
                    due: (now + interval_of(interval)) as u64,
                    playing: old(self).wanted@.contains(id),
                };
                let at = live_place(old(self).live@, id);
                final(self).live@ == (if at < old(self).live@.len() {
                    old(self).live@.update(at, live)
                } else {
                    old(self).live@.push(live)
                })
            }),
    {
        broadcast use vstd::std_specs::hash::group_hash_axioms;

        let interval: u64 = if interval < MIN_INTERVAL { MIN_INTERVAL } else { interval };
        let live = Live {
            id,
            frames: if frames == 0 { 1 } else { frames },
            playhead: 0,
            interval,
            due: now + interval,
            playing: self.wanted.contains(&id),
        };
        let at = self.place(id);
        let ghost before = self.live@;
        if at < self.live.len() {
            self.live.set(at, live);
        } else {
            self.live.push(live);
        }
        assert forall|i: int, j: int| 0 <= i < j < self.live@.len() implies (
        #[trigger] self.live@[i]).id != (#[trigger] self.live@[j]).id by {
            if j < before.len() {
                assert(before[i].id != before[j].id);
            }
        }
    }

    /// A sticker is to play.
    pub fn play(&mut self, id: u64, now: u64)
        requires
            old(self).well_formed(),
            forall|i: int|
                0 <= i < old(self).live@.len() ==> now + (#[trigger] old(self).live@[i]).interval
                    <= u64::MAX,
        ensures
            final(self).well_formed(),
            final(self).wanted@ == old(self).wanted@.insert(id),
            ({
                let at = live_place(old(self).live@, id);
                final(self).live@ == (if at < old(self).live@.len() && !old(self).live@[at].playing {
                    old(self).live@.update(
                        at,
                        Live {
                            playing: true,
                            due: (now + old(self).live@[at].interval) as u64,
                            ..old(self).live@[at]
                        },
                    )
                } else {
                    old(self).live@
                })
            }),
    {
        broadcast use vstd::std_specs::hash::group_hash_axioms;

        self.wanted.insert(id);
        let at = self.place(id);
        let ghost before = self.live@;
        if at < self.live.len() {
            let live = self.live[at];
            if !live.playing {
                self.live.set(at, Live { playing: true, due: now + live.interval, ..live });
            }
        }
        assert forall|i: int, j: int| 0 <= i < j < self.live@.len() implies (
        #[trigger] self.live@[i]).id != (#[trigger] self.live@[j]).id by {
            assert(before[i].id != before[j].id);
        }
    }

    /// A sticker is to stop, or could not be drawn.
    fn halt(&mut self, id: u64)
        requires
            old(self).well_formed(),
        ensures
            final(self).well_formed(),
            final(self).wanted == old(self).wanted,
            final(self).live@ == halted(old(self).live@, id),
    {
        let at = self.place(id);
        let ghost before = self.live@;
        if at < self.live.len() {
            let live = self.live[at];
            self.live.set(at, Live { playing: false, ..live });
        }
        assert forall|i: int, j: int| 0 <= i < j < self.live@.len() implies (
        #[trigger] self.live@[i]).id != (#[trigger] self.live@[j]).id by {
            assert(before[i].id != before[j].id);
        }
    }

    /// A sticker is not to play.
    pub fn pause(&mut self, id: u64)
        requires
            old(self).well_formed(),
        ensures
            final(self).well_formed(),
            final(self).wanted@ == old(self).wanted@.remove(id),
            final(self).live@ == halted(old(self).live@, id),
    {
        broadcast use vstd::std_specs::hash::group_hash_axioms;

        self.wanted.remove(&id);
        self.halt(id);
    }

    /// A frame of a sticker could not be drawn: it stands still from now on.
    pub fn failed(&mut self, id: u64)
        requires
            old(self).well_formed(),
        ensures
            final(self).well_formed(),
            final(self).wanted == old(self).wanted,
            final(self).live@ == halted(old(self).live@, id),
    {
        self.halt(id);
    }

    /// A sticker is gone.
    pub fn discard(&mut self, id: u64)
        requires
            old(self).well_formed(),
        ensures
            final(self).well_formed(),
            final(self).wanted@ == old(self).wanted@.remove(id),
            ({
                let at = live_place(old(self).live@, id);
                final(self).live@ == (if at < old(self).live@.len() {
                    old(self).live@.remove(at)
                } else {
                    old(self).live@
                })
            }),
    {
        broadcast use vstd::std_specs::hash::group_hash_axioms;

        self.wanted.remove(&id);
        let at = self.place(id);
        let ghost before = self.live@;
        if at < self.live.len() {
            let _gone = self.live.remove(at);
            assert forall|i: int, j: int| 0 <= i < j < self.live@.len() implies (
            #[trigger] self.live@[i]).id != (#[trigger] self.live@[j]).id by {
                let a = if i < at { i } else { i + 1 };
                let b = if j < at { j } else { j + 1 };
                assert(before[a].id != before[b].id);
            }
        }
    }

    /// Moves each sticker that is due on by a frame. Returns the frames to draw.
    pub fn advance(&mut self, now: u64) -> (frames: Vec<(u64, usize)>)
        requires
            old(self).well_formed(),
            forall|i: int|
                0 <= i < old(self).live@.len() ==> (#[trigger] old(self).live@[i]).due + old(
                    self,
                ).live@[i].interval <= u64::MAX,
        ensures
            final(self).well_formed(),
            final(self).wanted == old(self).wanted,
            final(self).live@ == old(self).live@.map_values(|live: Live| stepped(live, now)),
            frames@ == due_in(old(self).live@, now, old(self).live@.len() as int),
    {
        let ghost before = self.live@;
        let mut frames: Vec<(u64, usize)> = Vec::new();
        let mut i: usize = 0;
        while i < self.live.len()
            invariant
                i <= self.live@.len(),
                self.live@.len() == before.len(),
                self.wanted == old(self).wanted,
                forall|j: int| 0 <= j < before.len() ==> (#[trigger] before[j]).frames > 0
                    && before[j].playhead < before[j].frames,
                forall|j: int|
                    0 <= j < before.len() ==> (#[trigger] before[j]).due + before[j].interval
                        <= u64::MAX,
                forall|j: int| 0 <= j < i ==> #[trigger] self.live@[j] == stepped(before[j], now),
                forall|j: int| i <= j < before.len() ==> #[trigger] self.live@[j] == before[j],
                frames@ == due_in(before, now, i as int),
            decreases self.live@.len() - i,
        {
            let live = self.live[i];
            assert(live == before[i as int]);
            if live.playing && live.due <= now {
                let playhead: usize = (live.playhead + 1) % live.frames;
                let next: u64 = live.due + live.interval;
                let due: u64 = if next > now { next } else { now };
                self.live.set(i, Live { playhead, due, ..live });
                frames.push((live.id, playhead));
            }
            i += 1;
        }
        assert(self.live@ =~= before.map_values(|live: Live| stepped(live, now)));
        assert forall|i: int, j: int| 0 <= i < j < self.live@.len() implies (
        #[trigger] self.live@[i]).id != (#[trigger] self.live@[j]).id by {
            assert(before[i].id != before[j].id);
        }
        frames
    }
}

/// How long each frame is shown: never less than sixty times a second allows.
pub open spec fn interval_of(interval: u64) -> int {
    if interval < MIN_INTERVAL {
        MIN_INTERVAL as int
    } else {
        interval as int
    }
}

/// The stickers with one that does not play.
pub open spec fn halted(live: Seq<Live>, id: u64) -> Seq<Live> {
    let at = live_place(live, id);
    if at < live.len() {
        live.update(at, Live { playing: false, ..live[at] })
    } else {
        live
    }
}

/// Between two frames of a sticker at least a sixtieth of a second passes, and none
/// is due before the point in time at which the last one was drawn.
pub proof fn law_frames_keep_their_pace(live: Live, now: u64)
    requires
        live.playing,
        live.due <= now,
        live.interval >= MIN_INTERVAL,
        live.due + live.interval <= u64::MAX,
    ensures
        stepped(live, now).due >= live.due + MIN_INTERVAL,
        stepped(live, now).due >= now,
{
}

} // verus!
