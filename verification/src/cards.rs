//! The cards that places, contacts and dice are shown on.

use vstd::prelude::*;

use crate::avatar::{initials, initials_of};
use crate::clock::{whole_seconds, Stamp};
use crate::icons;
use crate::text::{decimal, digits, push_integer, push_number, trim, trimmed};
use crate::tg::{Dice, LiveLocation, Location, SharedContact};

verus! {

/// How often the card of a place that moves is looked at again, in seconds.
pub const LIVE_TICK: u32 = 60;

/// What stands where the map goes.
#[derive(Debug, Clone, Copy, PartialEq, Eq, Structural)]
pub enum MapSlot {
    /// The map is being loaded.
    Loading,
    Unavailable,
    /// Maps are switched off: a symbol is shown.
    Glyph,
}

impl MapSlot {
    pub fn text(self) -> (text: &'static str)
        ensures
            text@ == (match self {
                MapSlot::Loading => "loading map…"@,
                MapSlot::Unavailable => "map unavailable"@,
                MapSlot::Glyph => icons::LOCATION@,
            }),
    {
        match self {
            MapSlot::Loading => "loading map…",
            MapSlot::Unavailable => "map unavailable",
            MapSlot::Glyph => icons::LOCATION,
        }
    }
}

/// What is said of a place that moves.
#[derive(Debug, PartialEq, Eq)]
pub struct LivePlan {
    pub line: String,
    /// Whether it is still shared.
    pub accent: bool,
    /// Whether it can be updated and stopped.
    pub own_buttons: bool,
    /// Whether the line is to be looked at again after a while.
    pub timer: bool,
}

/// The card of a place.
#[derive(Debug, PartialEq, Eq)]
pub struct GeoPlan {
    pub map: MapSlot,
    pub title: Option<String>,
    pub address: Option<String>,
    pub live: Option<LivePlan>,
}

/// Whether a place is no longer shared.
pub open spec fn sharing_ended(live: LiveLocation, now: Stamp) -> bool {
    live.stopped || now.instant() > live.expires.instant()
}

/// For how long a place is still shared.
pub open spec fn remaining_words(minutes: int) -> Seq<char> {
    if minutes <= 1 {
        "1 min"@
    } else if minutes < 60 {
        digits(minutes) + " min"@
    } else {
        digits((minutes + 59) / 60) + " hr"@
    }
}

/// How long ago a place was updated.
pub open spec fn age_words(minutes: int) -> Seq<char> {
    if minutes < 1 {
        "just now"@
    } else if minutes < 60 {
        digits(minutes) + " min ago"@
    } else {
        digits(minutes / 60) + " hr ago"@
    }
}

/// Whole minutes from one point in time to another, zero where it comes before.
pub open spec fn minutes_between(from: Stamp, to: Stamp) -> int {
    let seconds = whole_seconds(to.instant() - from.instant());
    if seconds > 0 {
        seconds / 60
    } else {
        0
    }
}

/// What is said of a place that moves.
pub open spec fn live_words(live: LiveLocation, outgoing: bool, now: Stamp) -> Seq<char> {
    if sharing_ended(live, now) {
        "Sharing ended"@
    } else if outgoing {
        "Live · sharing for "@ + remaining_words(minutes_between(now, live.expires))
    } else {
        "Live · updated "@ + age_words(minutes_between(live.last_update, now))
    }
}

fn whole_minutes(from: Stamp, to: Stamp) -> (minutes: u64)
    ensures
        minutes == minutes_between(from, to),
        minutes <= 20_000_000_000_000,
{
    let seconds: i64 = to.seconds_since(from);
    if seconds > 0 {
        (seconds / 60) as u64
    } else {
        0
    }
}

fn has_ended(live: &LiveLocation, now: Stamp) -> (ended: bool)
    ensures
        ended == sharing_ended(*live, now),
{
    live.stopped || now.is_after(live.expires)
}

fn push_remaining(out: &mut String, minutes: u64)
    requires
        minutes <= 20_000_000_000_000,
    ensures
        final(out)@ == old(out)@ + remaining_words(minutes as int),
{
    if minutes <= 1 {
        out.push_str("1 min");
    } else if minutes < 60 {
        push_number(out, minutes);
        out.push_str(" min");
    } else {
        push_number(out, (minutes + 59) / 60);
        out.push_str(" hr");
    }
    assert(out@ =~= old(out)@ + remaining_words(minutes as int));
}

fn push_age(out: &mut String, minutes: u64)
    ensures
        final(out)@ == old(out)@ + age_words(minutes as int),
{
    if minutes < 1 {
        out.push_str("just now");
    } else if minutes < 60 {
        push_number(out, minutes);
        out.push_str(" min ago");
    } else {
        push_number(out, minutes / 60);
        out.push_str(" hr ago");
    }
    assert(out@ =~= old(out)@ + age_words(minutes as int));
}

/// What is said of a place that moves, at some point in time.
pub fn live_line(live: &LiveLocation, outgoing: bool, now: Stamp) -> (line: String)
    ensures
        line@ == live_words(*live, outgoing, now),
{
    if has_ended(live, now) {
        "Sharing ended".to_owned()
    } else if outgoing {
        let mut line = "Live · sharing for ".to_owned();
        push_remaining(&mut line, whole_minutes(now, live.expires));
        line
    } else {
        let mut line = "Live · updated ".to_owned();
        push_age(&mut line, whole_minutes(live.last_update, now));
        line
    }
}

impl LivePlan {
    /// What is said and offered of a place that moves.
    pub open spec fn tells(self, live: LiveLocation, outgoing: bool, now: Stamp) -> bool {
        &&& self.line@ == live_words(live, outgoing, now)
        &&& self.accent == !sharing_ended(live, now)
        &&& self.own_buttons == (outgoing && !sharing_ended(live, now))
        &&& self.timer == !sharing_ended(live, now)
    }
}

/// What is said and offered of a place that moves.
pub fn live_plan(live: &LiveLocation, outgoing: bool, now: Stamp) -> (plan: LivePlan)
    ensures
        plan.tells(*live, outgoing, now),
{
    let ended = has_ended(live, now);
    LivePlan {
        line: live_line(live, outgoing, now),
        accent: !ended,
        own_buttons: outgoing && !ended,
        timer: !ended,
    }
}

/// What stands where the map goes.
pub open spec fn map_of(location: Location, map_tiles: bool) -> MapSlot {
    if !map_tiles {
        MapSlot::Glyph
    } else if location.live is Some && location.live->0.stopped {
        MapSlot::Unavailable
    } else {
        MapSlot::Loading
    }
}

fn nonempty(text: &String) -> (shown: Option<String>)
    ensures
        shown == (if text@.len() == 0 { None } else { Some(*text) }),
{
    if text.as_str().unicode_len() == 0 {
        None
    } else {
        Some(text.clone())
    }
}

/// The card of a place. Its map is to be loaded exactly where the card says so.
pub fn build_geo(location: &Location, outgoing: bool, map_tiles: bool, now: Stamp) -> (plan: GeoPlan)
    ensures
        plan.map == map_of(*location, map_tiles),
        plan.title == (if location.title@.len() == 0 { None } else { Some(location.title) }),
        plan.address == (if location.address@.len() == 0 { None } else { Some(location.address) }),
        match location.live {
            Some(live) => plan.live is Some && plan.live->0.tells(live, outgoing, now),
            None => plan.live is None,
        },
{
    let map = if !map_tiles {
        MapSlot::Glyph
    } else {
        match &location.live {
            Some(live) => if live.stopped {
                MapSlot::Unavailable
            } else {
                MapSlot::Loading
            },
            None => MapSlot::Loading,
        }
    };
    GeoPlan {
        map,
        title: nonempty(&location.title),
        address: nonempty(&location.address),
        live: match &location.live {
            Some(live) => Some(live_plan(live, outgoing, now)),
            None => None,
        },
    }
}

/// The card of a contact.
#[derive(Debug, PartialEq, Eq)]
pub struct ContactPlan {
    pub initials: String,
    pub name: String,
    pub phone: String,
    /// The user whose chat can be opened.
    pub open_chat: Option<i64>,
    pub add_label: &'static str,
    pub add_sensitive: bool,
}

/// A contact's full name as it is put together.
pub open spec fn full_name(contact: SharedContact) -> Seq<char> {
    contact.first_name@ + " "@ + contact.last_name@
}

/// The card of a contact, which may have been added already.
pub fn build_contact(contact: &SharedContact, added: bool) -> (plan: ContactPlan)
    ensures
        plan.initials@ == initials_of(full_name(*contact)),
        plan.name@ == trimmed(full_name(*contact)),
        plan.phone == contact.phone,
        plan.open_chat == contact.user_id,
        plan.add_label@ == (if added { "Added"@ } else { "Add to contacts"@ }),
        plan.add_sensitive == !added,
{
    let mut name = contact.first_name.clone();
    name.push_str(" ");
    name.push_str(&contact.last_name);
    ContactPlan {
        initials: initials(&name),
        name: trim(&name),
        phone: contact.phone.clone(),
        open_chat: contact.user_id,
        add_label: if added { "Added" } else { "Add to contacts" },
        add_sensitive: !added,
    }
}

/// The card of a die.
#[derive(Debug, PartialEq, Eq)]
pub struct DicePlan {
    pub emoji: String,
    pub value: String,
    pub muted: bool,
}

/// The card of a die.
pub fn build_dice(dice: &Dice) -> (plan: DicePlan)
    ensures
        plan.emoji == dice.emoji,
        plan.value@ == (if dice.value > 0 {
            "Rolled "@ + decimal(dice.value as int)
        } else {
            "Rolling…"@
        }),
        plan.muted == (dice.value == 0),
{
    let value = if dice.value > 0 {
        let mut text = "Rolled ".to_owned();
        push_integer(&mut text, dice.value as i64);
        text
    } else {
        "Rolling…".to_owned()
    };
    DicePlan { emoji: dice.emoji.clone(), value, muted: dice.value == 0 }
}

/// A place that is no longer shared stays so: its card offers nothing more.
pub proof fn law_ended_sharing_stays_ended(live: LiveLocation, now: Stamp, later: Stamp)
    requires
        sharing_ended(live, now),
        now.instant() <= later.instant(),
    ensures
        sharing_ended(live, later),
{
}

} // verus!
