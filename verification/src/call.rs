//! The card of a voice call.

use vstd::prelude::*;

use crate::avatar::Avatar;
use crate::clock::{whole_seconds, Stamp};
use crate::icons;
use crate::text::{digits, push_padded, two_digits};
use crate::tg::{CallEndReason, CallInfo, CallPhase};

verus! {

/// How long the card of a call that ended stays, in milliseconds.
pub const CLOSE_AFTER: u64 = 1500;

/// How long each tone and each pause of the ringtone is, in milliseconds.
pub const RING_PULSE: u64 = 450;

/// How large the picture of the other side is.
pub const PEER_SIZE: i32 = 88;

/// What can be asked for from the card.
#[derive(Debug, Clone, Copy, PartialEq, Eq, Structural)]
pub enum CallAction {
    Accept,
    HangUp,
    SetMuted(bool),
}

/// Which parts of the card are shown.
#[derive(Debug, Clone, Copy, PartialEq, Eq, Structural)]
pub struct CardParts {
    pub status: bool,
    pub timer: bool,
    pub emojis: bool,
    pub caption: bool,
    pub incoming_actions: bool,
    pub hang_up: bool,
    pub active_actions: bool,
}

/// The button that silences the microphone.
#[derive(Debug, Clone, Copy, PartialEq, Eq, Structural)]
pub struct MuteButton {
    pub pressed: bool,
    /// Whether its label offers to speak again.
    pub offers_unmute: bool,
}

/// The card.
pub struct CallView {
    pub open: bool,
    pub avatar: Avatar,
    pub name: String,
    pub status: String,
    pub timer: String,
    pub emojis: String,
    pub parts: CardParts,
    pub mute: MuteButton,
    pub current: Option<CallInfo>,
    pub generation: u64,
    pub timer_running: bool,
    /// The call whose card closes by itself after a while.
    pub close_pending: Option<u64>,
    /// Whether nothing may be heard.
    pub probe: bool,
    pub ringtone_enabled: bool,
    pub ringing: bool,
    pub ringtone_loud: bool,
}

/// Which parts of the card are shown in a phase.
pub open spec fn parts_of(phase: CallPhase, emojis: bool) -> CardParts {
    CardParts {
        status: !(phase is Active),
        timer: phase is Active,
        emojis: phase is Active && emojis,
        caption: phase is Active && emojis,
        incoming_actions: phase is Incoming,
        hang_up: phase is Requesting || phase is Exchanging || phase is Connecting,
        active_actions: phase is Active,
    }
}

/// What the card says of a call that is not active.
pub open spec fn status_of(phase: CallPhase, reason: Option<CallEndReason>) -> Seq<char> {
    match phase {
        CallPhase::Incoming => "Incoming voice call"@,
        CallPhase::Requesting => "Calling…"@,
        CallPhase::Exchanging => "Exchanging keys…"@,
        CallPhase::Connecting => "Connecting…"@,
        CallPhase::Active => Seq::empty(),
        CallPhase::Ended => match reason {
            Some(CallEndReason::Declined) => "Declined"@,
            Some(CallEndReason::Missed) => "Missed"@,
            Some(CallEndReason::Failed) => "Call failed"@,
            _ => "Call ended"@,
        },
    }
}

fn parts_for(phase: CallPhase, emojis: bool) -> (parts: CardParts)
    ensures
        parts == parts_of(phase, emojis),
{
    let active = matches!(phase, CallPhase::Active);
    CardParts {
        status: !active,
        timer: active,
        emojis: active && emojis,
        caption: active && emojis,
        incoming_actions: matches!(phase, CallPhase::Incoming),
        hang_up: matches!(
            phase,
            CallPhase::Requesting | CallPhase::Exchanging | CallPhase::Connecting
        ),
        active_actions: active,
    }
}

fn status_text(phase: CallPhase, reason: Option<CallEndReason>) -> (text: &'static str)
    requires
        !(phase is Active),
    ensures
        text@ == status_of(phase, reason),
{
    match phase {
        CallPhase::Incoming => "Incoming voice call",
        CallPhase::Requesting => "Calling…",
        CallPhase::Exchanging => "Exchanging keys…",
        CallPhase::Connecting => "Connecting…",
        CallPhase::Active => "",
        CallPhase::Ended => match reason {
            Some(CallEndReason::Declined) => "Declined",
            Some(CallEndReason::Missed) => "Missed",
            Some(CallEndReason::Failed) => "Call failed",
            _ => "Call ended",
        },
    }
}

/// For how many seconds a call has been active.
pub open spec fn seconds_active(connected_at: Option<Stamp>, now: Stamp) -> int {
    match connected_at {
        Some(start) => if whole_seconds(now.instant() - start.instant()) > 0 {
            whole_seconds(now.instant() - start.instant())
        } else {
            0
        },
        None => 0,
    }
}

/// Minutes and seconds, each with at least two digits.
pub open spec fn timer_words(seconds: int) -> Seq<char> {
    (if seconds / 60 < 100 { two_digits(seconds / 60) } else { digits(seconds / 60) }) + ":"@
        + two_digits(seconds % 60)
}

fn timer_text(connected_at: Option<Stamp>, now: Stamp) -> (text: String)
    ensures
        text@ == timer_words(seconds_active(connected_at, now)),
{
    let seconds: i64 = match connected_at {
        Some(start) => now.seconds_since(start),
        None => 0,
    };
    let seconds: u64 = if seconds > 0 { seconds as u64 } else { 0 };
    let mut text = String::new();
    push_padded(&mut text, seconds / 60);
    text.push_str(":");
    push_padded(&mut text, seconds % 60);
    assert(text@ =~= timer_words(seconds as int));
    text
}

/// Whether a call is another one than the call before.
pub open spec fn is_new_call(previous: Option<CallInfo>, info: CallInfo) -> bool {
    match previous {
        None => true,
        Some(before) => before.phase is Ended || (before.id != 0 && info.id != 0 && before.id
            != info.id),
    }
}

/// Whether news of a call come too late: it ended, and its card is closed already.
pub open spec fn too_late(previous: Option<CallInfo>, info: CallInfo) -> bool {
    previous is None && info.phase is Ended
}

fn starts_call(previous: &Option<CallInfo>, info: &CallInfo) -> (answer: bool)
    ensures
        answer == is_new_call(*previous, *info),
{
    match previous {
        None => true,
        Some(before) => matches!(before.phase, CallPhase::Ended) || (before.id != 0 && info.id != 0
            && before.id != info.id),
    }
}

impl CallView {
    pub fn new(probe: bool, ringtone_enabled: bool) -> (view: CallView)
        ensures
            !view.open,
            view.current is None,
            view.generation == 0,
            !view.timer_running,
            view.close_pending is None,
            view.probe == probe,
            view.ringtone_enabled == ringtone_enabled,
            !view.ringing,
            view.ringtone_loud,
            view.timer@ == "00:00"@,
            view.mute == (MuteButton { pressed: false, offers_unmute: false }),
            view.avatar.unbound(PEER_SIZE),
            view.name@.len() == 0,
            view.status@.len() == 0,
            view.emojis@.len() == 0,
            view.parts == (CardParts {
                status: true,
                timer: false,
                emojis: false,
                caption: false,
                incoming_actions: false,
                hang_up: false,
                active_actions: false,
            }),
    {
        CallView {
            open: false,
            avatar: Avatar::new(PEER_SIZE),
            name: String::new(),
            status: String::new(),
            timer: "00:00".to_owned(),
            emojis: String::new(),
            parts: CardParts {
                status: true,
                timer: false,
                emojis: false,
                caption: false,
                incoming_actions: false,
                hang_up: false,
                active_actions: false,
            },
            mute: MuteButton { pressed: false, offers_unmute: false },
            current: None,
            generation: 0,
            timer_running: false,
            close_pending: None,
            probe,
            ringtone_enabled,
            ringing: false,
            ringtone_loud: true,
        }
    }

    /// What the card is once there is news of a call.
    pub open spec fn updated(self, before: CallView, info: CallInfo, now: Stamp) -> bool {
        let generation = if is_new_call(before.current, info) {
            before.generation.wrapping_add(1)
        } else {
            before.generation
        };
        &&& self.open
        &&& self.current == Some(info)
        &&& self.generation == generation
        &&& self.avatar.bound(before.avatar, info.peer_id, info.peer_name@)
        &&& self.name@ == info.peer_name@
        &&& self.parts == parts_of(info.phase, info.emojis@.len() > 0)
        &&& self.status@ == (if info.phase is Active {
            before.status@
        } else {
            status_of(info.phase, info.end_reason)
        })
        &&& self.timer_running == (info.phase is Active)
        &&& self.timer@ == (if info.phase is Active {
            timer_words(seconds_active(info.connected_at, now))
        } else {
            before.timer@
        })
        &&& self.emojis@ == (if info.phase is Active { info.emojis@ } else { before.emojis@ })
        &&& self.mute == (if info.phase is Active {
            MuteButton { pressed: info.muted, offers_unmute: info.muted }
        } else {
            before.mute
        })
        &&& self.close_pending == (if info.phase is Ended {
            Some(generation)
        } else if is_new_call(before.current, info) {
            None
        } else {
            before.close_pending
        })
        &&& self.ringing == (info.phase is Incoming && (before.ringing || (before.ringtone_enabled
            && !before.probe)))
        &&& self.ringtone_loud == (before.ringtone_loud || (info.phase is Incoming
            && before.ringtone_enabled && !before.probe && !before.ringing))
        &&& self.probe == before.probe
        &&& self.ringtone_enabled == before.ringtone_enabled
    }

    /// There is news of a call. Late news of a call whose card is closed already do
    /// not open it again. Returns whether the card now closes by itself after a
    /// while.
    pub fn update(&mut self, info: CallInfo, now: Stamp) -> (closes: bool)
        ensures
            too_late(old(self).current, info) ==> *final(self) == *old(self) && !closes,
            !too_late(old(self).current, info) ==> {
                &&& final(self).updated(*old(self), info, now)
                &&& closes == (info.phase is Ended)
            },
    {
        let ended = matches!(info.phase, CallPhase::Ended);
        if self.current.is_none() && ended {
            return false;
        }
        let new_call = starts_call(&self.current, &info);
        if new_call {
            self.generation = self.generation.wrapping_add(1);
            self.close_pending = None;
        }
        let _photo = self.avatar.bind(info.peer_id, info.peer_name.as_str(), false);
        self.name = info.peer_name.clone();
        self.open = true;
        self.parts = parts_for(info.phase, info.emojis.as_str().unicode_len() > 0);
        self.show_phase(&info, now);
        if ended {
            self.close_pending = Some(self.generation);
        }
        self.current = Some(info);
        ended
    }

    /// What the phase of a call changes besides the parts that are shown.
    fn show_phase(&mut self, info: &CallInfo, now: Stamp)
        ensures
            final(self).status@ == (if info.phase is Active {
                old(self).status@
            } else {
                status_of(info.phase, info.end_reason)
            }),
            final(self).timer_running == (info.phase is Active),
            final(self).timer@ == (if info.phase is Active {
                timer_words(seconds_active(info.connected_at, now))
            } else {
                old(self).timer@
            }),
            final(self).emojis@ == (if info.phase is Active {
                info.emojis@
            } else {
                old(self).emojis@
            }),
            final(self).mute == (if info.phase is Active {
                MuteButton { pressed: info.muted, offers_unmute: info.muted }
            } else {
                old(self).mute
            }),
            final(self).ringing == (info.phase is Incoming && (old(self).ringing || (old(self).ringtone_enabled && !old(self).probe))),
            final(self).ringtone_loud == (old(self).ringtone_loud || (info.phase is Incoming
                && old(self).ringtone_enabled && !old(self).probe && !old(self).ringing)),
            *final(self) == (CallView {
                status: final(self).status,
                timer_running: final(self).timer_running,
                timer: final(self).timer,
                emojis: final(self).emojis,
                mute: final(self).mute,
                ringing: final(self).ringing,
                ringtone_loud: final(self).ringtone_loud,
                ..*old(self)
            }),
    {
        if matches!(info.phase, CallPhase::Active) {
            self.timer_running = true;
            self.timer = timer_text(info.connected_at, now);
            self.emojis = info.emojis.clone();
            self.mute = MuteButton { pressed: info.muted, offers_unmute: info.muted };
            self.ringing = false;
            return;
        }
        self.timer_running = false;
        self.status = status_text(info.phase, info.end_reason).to_owned();
        if matches!(info.phase, CallPhase::Incoming) {
            if self.ringtone_enabled {
                self.start_ringtone();
            }
        } else {
            self.ringing = false;
        }
    }

    /// Begins to ring, unless it rings already or nothing may be heard.
    fn start_ringtone(&mut self)
        ensures
            final(self).ringing == (old(self).ringing || !old(self).probe),
            final(self).ringtone_loud == (old(self).ringtone_loud || (!old(self).probe && !old(self).ringing)),
            *final(self) == (CallView {
                ringing: final(self).ringing,
                ringtone_loud: final(self).ringtone_loud,
                ..*old(self)
            }),
    {
        if self.probe || self.ringing {
            return;
        }
        self.ringing = true;
        self.ringtone_loud = true;
    }

    /// No tone can be played on this machine.
    pub fn ringtone_failed(&mut self)
        ensures
            *final(self) == (CallView { ringing: false, ..*old(self) }),
    {
        self.ringing = false;
    }

    /// A tone or a pause of the ringtone is over. Returns whether it is to be heard
    /// now, or nothing where it no longer rings.
    pub fn ring_pulse(&mut self) -> (loud: Option<bool>)
        ensures
            loud == (if old(self).ringing { Some(!old(self).ringtone_loud) } else { None }),
            *final(self) == (CallView {
                ringtone_loud: if old(self).ringing {
                    !old(self).ringtone_loud
                } else {
                    old(self).ringtone_loud
                },
                ..*old(self)
            }),
    {
        if !self.ringing {
            return None;
        }
        self.ringtone_loud = !self.ringtone_loud;
        Some(self.ringtone_loud)
    }

    pub fn set_ringtone_enabled(&mut self, enabled: bool)
        ensures
            final(self).ringing == (if !enabled {
                false
            } else if old(self).current is Some && old(self).current->0.phase is Incoming {
                old(self).ringing || !old(self).probe
            } else {
                old(self).ringing
            }),
            final(self).ringtone_enabled == enabled,
            final(self).ringtone_loud == (old(self).ringtone_loud || (!old(self).ringing && final(self).ringing)),
            *final(self) == (CallView {
                ringtone_enabled: enabled,
                ringing: final(self).ringing,
                ringtone_loud: final(self).ringtone_loud,
                ..*old(self)
            }),
    {
        self.ringtone_enabled = enabled;
        let incoming = match &self.current {
            Some(info) => matches!(info.phase, CallPhase::Incoming),
            None => false,
        };
        if enabled && incoming {
            self.start_ringtone();
        } else if !enabled {
            self.ringing = false;
        }
    }

    /// A second of an active call has passed. Returns whether the timer goes on.
    pub fn timer_tick(&mut self, now: Stamp) -> (goes_on: bool)
        ensures
            goes_on == (old(self).current is Some && old(self).current->0.phase is Active && old(self).current->0.connected_at is Some),
            final(self).timer@ == (if goes_on {
                timer_words(seconds_active(old(self).current->0.connected_at, now))
            } else {
                old(self).timer@
            }),
            final(self).timer_running == (goes_on && old(self).timer_running),
            *final(self) == (CallView {
                timer: final(self).timer,
                timer_running: final(self).timer_running,
                ..*old(self)
            }),
    {
        let connected_at = match &self.current {
            Some(info) => if matches!(info.phase, CallPhase::Active) {
                info.connected_at
            } else {
                None
            },
            None => None,
        };
        if connected_at.is_none() {
            self.timer_running = false;
            return false;
        }
        self.timer = timer_text(connected_at, now);
        true
    }

    /// The time is over after which a card closes by itself. It closes unless
    /// another call has begun since. Returns whether it closed.
    pub fn close_due(&mut self) -> (closed: bool)
        ensures
            closed == (old(self).close_pending == Some(old(self).generation) && old(self).current is Some && old(self).current->0.phase is Ended),
            closed ==> final(self).cleared(*old(self)),
            !closed ==> *final(self) == (CallView { close_pending: None, ..*old(self) }),
    {
        let due = match self.close_pending {
            Some(generation) => generation == self.generation,
            None => false,
        };
        self.close_pending = None;
        let ended = match &self.current {
            Some(info) => matches!(info.phase, CallPhase::Ended),
            None => false,
        };
        if due && ended {
            self.clear();
            true
        } else {
            false
        }
    }

    /// A card that is closed.
    pub open spec fn cleared(self, before: CallView) -> bool {
        self == (CallView {
            open: false,
            current: None,
            timer_running: false,
            close_pending: None,
            ringing: false,
            ..before
        })
    }

    /// Closes the card.
    pub fn clear(&mut self)
        ensures
            final(self).cleared(*old(self)),
    {
        self.timer_running = false;
        self.close_pending = None;
        self.ringing = false;
        self.current = None;
        self.open = false;
    }

    /// Shows whether the microphone is silenced, after an attempt to change it failed.
    pub fn resync_mute(&mut self)
        ensures
            final(self).mute == (MuteButton {
                pressed: old(self).current is Some && old(self).current->0.muted,
                ..old(self).mute
            }),
            *final(self) == (CallView { mute: final(self).mute, ..*old(self) }),
    {
        let muted = match &self.current {
            Some(info) => info.muted,
            None => false,
        };
        self.mute.pressed = muted;
    }

    /// The user pressed the button that silences the microphone.
    pub fn toggle_mute(&mut self) -> (asked: CallAction)
        ensures
            asked == CallAction::SetMuted(!old(self).mute.pressed),
            final(self).mute == (MuteButton {
                pressed: !old(self).mute.pressed,
                ..old(self).mute
            }),
            *final(self) == (CallView { mute: final(self).mute, ..*old(self) }),
    {
        let pressed = !self.mute.pressed;
        self.mute.pressed = pressed;
        CallAction::SetMuted(pressed)
    }

    /// What the button that silences the microphone says.
    pub fn mute_label(&self) -> (label: String)
        ensures
            label@ == (if self.mute.offers_unmute {
                icons::MIC_OFF@ + "  "@ + "Unmute"@
            } else {
                icons::MIC@ + "  "@ + "Mute"@
            }),
    {
        let mut label = if self.mute.offers_unmute {
            icons::MIC_OFF.to_owned()
        } else {
            icons::MIC.to_owned()
        };
        label.push_str("  ");
        label.push_str(if self.mute.offers_unmute { "Unmute" } else { "Mute" });
        label
    }

    pub fn is_open(&self) -> (open: bool)
        ensures
            open == self.open,
    {
        self.open
    }

    pub fn phase(&self) -> (phase: Option<CallPhase>)
        ensures
            phase == (match self.current {
                Some(info) => Some(info.phase),
                None => None,
            }),
    {
        match &self.current {
            Some(info) => Some(info.phase),
            None => None,
        }
    }

    pub fn current(&self) -> (info: Option<CallInfo>)
        ensures
            info == self.current,
    {
        match &self.current {
            Some(info) => Some(info.clone()),
            None => None,
        }
    }

    pub fn emoji_visible_nonempty(&self) -> (answer: bool)
        ensures
            answer == (self.parts.emojis && self.emojis@.len() > 0),
    {
        self.parts.emojis && self.emojis.as_str().unicode_len() > 0
    }

    pub fn muted(&self) -> (muted: bool)
        ensures
            muted == (self.current is Some && self.current->0.muted),
    {
        match &self.current {
            Some(info) => info.muted,
            None => false,
        }
    }

    /// The user pressed Escape. Returns whether the card took the key, and what is
    /// asked for.
    pub fn escape(&self) -> (answer: (bool, Option<CallAction>))
        ensures
            answer == (match self.current {
                None => (false, None),
                Some(info) => if info.phase is Ended {
                    (self.open, None)
                } else {
                    (true, Some(CallAction::HangUp))
                },
            }),
    {
        match &self.current {
            None => (false, None),
            Some(info) => if matches!(info.phase, CallPhase::Ended) {
                (self.open, None)
            } else {
                (true, Some(CallAction::HangUp))
            },
        }
    }

    /// Takes an incoming call.
    pub fn probe_accept(&self) -> (asked: Option<CallAction>)
        ensures
            asked == (if self.current is Some && self.current->0.phase is Incoming {
                Some(CallAction::Accept)
            } else {
                None
            }),
    {
        match self.phase() {
            Some(CallPhase::Incoming) => Some(CallAction::Accept),
            _ => None,
        }
    }

    /// Ends a call whose card is open.
    pub fn probe_hang_up(&self) -> (asked: Option<CallAction>)
        ensures
            asked == (if self.open { Some(CallAction::HangUp) } else { None }),
    {
        if self.open {
            Some(CallAction::HangUp)
        } else {
            None
        }
    }

    /// Presses the button that silences the microphone of an active call.
    pub fn probe_toggle_mute(&mut self) -> (asked: Option<CallAction>)
        ensures
            asked == (if old(self).current is Some && old(self).current->0.phase is Active {
                Some(CallAction::SetMuted(!old(self).mute.pressed))
            } else {
                None
            }),
            final(self).mute == (MuteButton {
                pressed: (asked is Some) != old(self).mute.pressed,
                ..old(self).mute
            }),
            *final(self) == (CallView { mute: final(self).mute, ..*old(self) }),
    {
        match self.phase() {
            Some(CallPhase::Active) => Some(self.toggle_mute()),
            _ => None,
        }
    }
}

/// A card never closes on a call that began after the one that ended: news of a new
/// call put off the closing.
pub proof fn law_new_calls_stay_open(before: CallView, after: CallView, info: CallInfo, now: Stamp)
    requires
        before.current is Some,
        before.current->0.phase is Ended,
        !(info.phase is Ended),
        after.updated(before, info, now),
    ensures
        after.close_pending is None,
        after.generation != before.generation,
{
}

/// Only an incoming call rings, and none does where nothing may be heard.
pub proof fn law_only_incoming_calls_ring(
    before: CallView,
    after: CallView,
    info: CallInfo,
    now: Stamp,
)
    requires
        after.updated(before, info, now),
        before.probe ==> !before.ringing,
    ensures
        after.ringing ==> info.phase is Incoming && !after.probe,
{
}

} // verus!
