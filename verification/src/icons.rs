//! The single source of truth for Nerd Font UI glyphs.

use vstd::prelude::*;

verus! {

pub const MENU: &'static str = "\u{f0c9}";
pub const SEARCH: &'static str = "\u{f002}";
pub const MORE: &'static str = "\u{f142}";
pub const INFO: &'static str = "\u{f129}";
pub const ATTACH: &'static str = "\u{f0c6}";
pub const EMOJI: &'static str = "\u{f118}";
pub const MIC: &'static str = "\u{f130}";
pub const MIC_OFF: &'static str = "\u{f131}";
pub const SEND: &'static str = "\u{f1d8}";
pub const CHECK: &'static str = "\u{f00c}";
pub const CHECK_DOUBLE: &'static str = "\u{f0139}";
pub const CLOCK: &'static str = "\u{f017}";
pub const PIN: &'static str = "\u{f08d}";
pub const MUTE: &'static str = "\u{f1f6}";
pub const ARCHIVE: &'static str = "\u{f187}";
pub const FORWARD: &'static str = "\u{f064}";
pub const REPLY: &'static str = "\u{f112}";
pub const TRASH: &'static str = "\u{f1f8}";
pub const CLOSE: &'static str = "\u{f00d}";
pub const DOWN: &'static str = "\u{f063}";
pub const LEFT: &'static str = "\u{f053}";
pub const RIGHT: &'static str = "\u{f054}";
pub const IMAGE: &'static str = "\u{f03e}";
pub const FILE: &'static str = "\u{f15b}";
pub const LINK: &'static str = "\u{f0c1}";
pub const USERS: &'static str = "\u{f0c0}";
pub const USER: &'static str = "\u{f007}";
pub const EYE: &'static str = "\u{f06e}";
pub const EDIT: &'static str = "\u{f044}";
pub const STICKER: &'static str = "\u{f1b2}";
pub const GIF: &'static str = "GIF";
pub const COPY: &'static str = "\u{f0c5}";
pub const SAVE: &'static str = "\u{f0c7}";
pub const STOP: &'static str = "\u{f04d}";
pub const GHOST: &'static str = "\u{f02a0}";
pub const COMPOSER_CURSOR: &'static str = "\u{258c}";
pub const PLAY: &'static str = "\u{f04b}";
pub const PAUSE: &'static str = "\u{f04c}";
pub const VOLUME: &'static str = "\u{f028}";
pub const VOLUME_OFF: &'static str = "\u{f026}";
pub const FULLSCREEN: &'static str = "\u{f065}";
pub const LOCATION: &'static str = "\u{f041}";
pub const PHONE: &'static str = "\u{f095}";
pub const POLL: &'static str = "\u{f080}";
pub const DICE: &'static str = "\u{f522}";
pub const CALENDAR: &'static str = "\u{f073}";
pub const SCHEDULE: &'static str = "\u{f017}";
pub const TOPIC: &'static str = "\u{f292}";
pub const ROBOT: &'static str = "\u{f06a9}";
pub const CAMERA: &'static str = "\u{f030}";
pub const STORY: &'static str = "\u{f111}";
pub const LIVE: &'static str = "\u{f1eb}";
pub const ADD: &'static str = "\u{f067}";
pub const EXTERNAL: &'static str = "\u{f08e}";
pub const SPEED: &'static str = "\u{f0e7}";

} // verus!
