use omarchygram_ui::call::{CallAction, CallView};
use omarchygram_ui::clock::Stamp;
use omarchygram_ui::tg::{CallEndReason, CallInfo, CallPhase};

fn at(secs: i64) -> Stamp {
    Stamp::new(secs, 0, 0).unwrap()
}

fn call(id: i64, phase: CallPhase) -> CallInfo {
    CallInfo {
        id,
        peer_id: 9,
        peer_name: "Marta".to_string(),
        phase,
        emojis: String::new(),
        muted: false,
        connected_at: None,
        end_reason: None,
    }
}

#[test]
fn incoming_calls_ring_and_can_be_taken() {
    let mut view = CallView::new(false, true);
    assert!(!view.is_open());
    view.update(call(1, CallPhase::Incoming), at(0));
    assert!(view.is_open());
    assert!(view.ringing);
    assert_eq!(view.probe_accept(), Some(CallAction::Accept));
    view.update(call(1, CallPhase::Connecting), at(1));
    assert!(!view.ringing);
    assert_eq!(view.probe_accept(), None);
    assert_eq!(view.probe_hang_up(), Some(CallAction::HangUp));
}

#[test]
fn the_time_of_a_call_is_counted() {
    let mut view = CallView::new(false, true);
    let mut active = call(1, CallPhase::Active);
    active.connected_at = Some(at(100));
    active.emojis = "🐢🌵🎈🎲".to_string();
    view.update(active, at(165));
    assert_eq!(view.timer, "01:05");
    assert!(view.emoji_visible_nonempty());
    assert!(view.timer_tick(at(166)));
    assert_eq!(view.timer, "01:06");
    assert_eq!(view.phase(), Some(CallPhase::Active));
}

#[test]
fn a_new_call_is_not_closed_with_the_old_one() {
    let mut view = CallView::new(false, true);
    let mut ended = call(1, CallPhase::Ended);
    ended.end_reason = Some(CallEndReason::Hangup);
    assert!(!view.update(ended.clone(), at(0)));
    assert!(!view.is_open());
    view.update(call(1, CallPhase::Requesting), at(0));
    assert!(view.update(ended, at(0)));
    view.update(call(2, CallPhase::Incoming), at(1));
    assert!(!view.close_due());
    assert!(view.is_open());
    let mut ended = call(2, CallPhase::Ended);
    ended.end_reason = Some(CallEndReason::Declined);
    assert!(view.update(ended, at(2)));
    assert!(view.close_due());
    assert!(!view.is_open());
}

#[test]
fn muting_is_asked_for_and_shown() {
    let mut view = CallView::new(false, true);
    let mut active = call(1, CallPhase::Active);
    active.connected_at = Some(at(0));
    view.update(active, at(0));
    assert!(!view.muted());
    assert_eq!(view.toggle_mute(), CallAction::SetMuted(true));
    view.resync_mute();
    assert!(!view.muted());
}

#[test]
fn a_silent_ring_makes_no_sound() {
    let mut view = CallView::new(false, false);
    view.update(call(1, CallPhase::Incoming), at(0));
    assert!(!view.ringing);
    assert_eq!(view.ring_pulse(), None);
}

#[test]
fn the_card_shows_who_calls() {
    let mut view = CallView::new(false, false);
    assert!(view.name.is_empty() && view.status.is_empty());
    assert!(view.parts.status && !view.parts.hang_up);
    view.update(call(1, CallPhase::Requesting), at(0));
    assert_eq!(view.name, "Marta");
    assert_eq!((view.avatar.key, view.avatar.color), (9, 2));
    assert_eq!(view.avatar.letters, "MA");
    assert_eq!((view.avatar.size, view.avatar.generation), (88, 1));
    assert!(!view.avatar.shows_photo);
}
