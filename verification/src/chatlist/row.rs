//! What the row of a chat shows.

use vstd::prelude::*;

use crate::avatar::{initials, initials_of};
use crate::clock::{clock_text, short_date_text, short_weekday_name, Stamp};
use crate::icons;
use crate::menus::{ChatAction, MenuItem};
use crate::messages::query::item_models;
use crate::text::{same_text, trim, trimmed};
use crate::tg::{ChatSummary, Msg, MuteMode};

verus! {

/// How the number of unread messages changes.
#[derive(Debug, Clone, Copy, PartialEq, Eq, Structural)]
pub enum UnreadUpdate {
    To(i32),
    Delta(i32),
}

/// The number of unread messages after a change. It never falls below zero.
pub open spec fn updated_unread(current: i32, update: UnreadUpdate) -> int {
    let next = match update {
        UnreadUpdate::To(value) => value as int,
        UnreadUpdate::Delta(value) => current + value,
    };
    if next < 0 {
        0
    } else {
        next
    }
}

/// Whether the number of unread messages can still be represented.
pub open spec fn countable(current: i32, update: UnreadUpdate) -> bool {
    match update {
        UnreadUpdate::To(_) => true,
        UnreadUpdate::Delta(value) => i32::MIN <= current + value <= i32::MAX,
    }
}

pub fn update_unread(current: i32, update: UnreadUpdate) -> (unread: i32)
    requires
        countable(current, update),
    ensures
        unread == updated_unread(current, update),
        unread >= 0,
{
    let next: i32 = match update {
        UnreadUpdate::To(value) => value,
        UnreadUpdate::Delta(value) => current + value,
    };
    if next < 0 {
        0
    } else {
        next
    }
}

/// What a chat counts as unread: its messages, and at least one where it is marked.
pub open spec fn badge(chat: ChatSummary) -> int {
    let marked = if chat.unread_mark { 1int } else { 0int };
    if chat.unread > marked {
        chat.unread as int
    } else {
        marked
    }
}

pub fn badge_of(chat: &ChatSummary) -> (count: i32)
    ensures
        count == badge(*chat),
        count >= 0,
{
    let marked: i32 = if chat.unread_mark { 1 } else { 0 };
    if chat.unread > marked {
        chat.unread
    } else {
        marked
    }
}

/// The time column: the clock for today, the weekday for this week, and else the
/// date.
pub open spec fn time_column(time: Option<Stamp>, now: Stamp) -> Seq<char> {
    match time {
        None => Seq::empty(),
        Some(at) => if at.calendar() == now.calendar() {
            clock_text(at)
        } else if (at.local_day() + 3) / 7 == (now.local_day() + 3) / 7 {
            short_weekday_name(at.local_day())
        } else {
            short_date_text(at.calendar())
        },
    }
}

pub fn format_time_at(time: Option<Stamp>, now: Stamp) -> (text: String)
    ensures
        text@ == time_column(time, now),
{
    match time {
        None => String::new(),
        Some(at) => {
            if at.date() == now.date() {
                at.clock()
            } else if at.is_in_week_of(now) {
                at.weekday()
            } else {
                at.short_date()
            }
        },
    }
}

/// The name that a chat goes by.
pub open spec fn shown_title(title: Seq<char>) -> Seq<char> {
    if trimmed(title).len() == 0 {
        "Unknown"@
    } else {
        title
    }
}

/// What stands before the preview: that it is a draft, or who wrote it.
pub open spec fn preview_prefix(chat: ChatSummary, draft: bool) -> Seq<char> {
    if draft {
        "Draft: "@
    } else if chat.last_sender@.len() > 0 {
        chat.last_sender@ + ": "@
    } else {
        Seq::empty()
    }
}

/// All that the row of a chat shows.
pub struct ChatRowPlan {
    /// The title with the mark of a chat that is divided into topics.
    pub heading: String,
    pub title: String,
    pub initials: String,
    pub muted: bool,
    pub time: String,
    pub prefix: String,
    pub draft: bool,
    pub preview: String,
    pub unread: i32,
    pub unread_visible: bool,
    /// Whether the avatar carries a dot in place of the number.
    pub unread_dot: bool,
    pub mentions: bool,
    pub pin: bool,
    pub ticks: bool,
    /// Whether the last own message was read.
    pub read: bool,
}

impl ChatRowPlan {
    /// Whether this is the row of a chat.
    pub open spec fn shows(
        self,
        chat: ChatSummary,
        selected: bool,
        collapsed: bool,
        now: Stamp,
    ) -> bool {
        let draft = chat.draft@.len() > 0 && !selected;
        &&& self.title@ == shown_title(chat.title@)
        &&& self.heading@ == (if chat.forum {
            icons::TOPIC@ + " "@ + shown_title(chat.title@)
        } else {
            shown_title(chat.title@)
        })
        &&& self.initials@ == initials_of(shown_title(chat.title@))
        &&& self.muted == chat.muted
        &&& self.time@ == time_column(chat.last_time, now)
        &&& self.draft == draft
        &&& self.prefix@ == preview_prefix(chat, draft)
        &&& self.preview@ == (if draft { chat.draft@ } else { chat.last_message@ })
        &&& self.unread == badge(chat)
        &&& self.unread_visible == (badge(chat) > 0)
        &&& self.unread_dot == (collapsed && badge(chat) > 0)
        &&& self.mentions == (chat.mentions > 0)
        &&& self.pin == (chat.pinned && badge(chat) == 0)
        &&& self.ticks == (chat.last_outgoing && badge(chat) == 0 && !chat.pinned)
        &&& self.read == (chat.last_msg_id <= chat.read_outbox_max_id)
    }
}

/// The name that a chat goes by.
pub fn title_of(title: &str) -> (shown: String)
    ensures
        shown@ == shown_title(title@),
{
    if trim(title).as_str().is_empty() {
        "Unknown".to_owned()
    } else {
        title.to_owned()
    }
}

/// Lays out the row of a chat.
pub fn update_row(chat: &ChatSummary, selected: bool, collapsed: bool, now: Stamp) -> (plan:
    ChatRowPlan)
    ensures
        plan.shows(*chat, selected, collapsed, now),
{
    let title = title_of(&chat.title);
    let mut heading = String::new();
    if chat.forum {
        heading.push_str(icons::TOPIC);
        heading.push_str(" ");
    }
    heading.push_str(&title);
    assert(heading@ =~= (if chat.forum {
        icons::TOPIC@ + " "@ + shown_title(chat.title@)
    } else {
        shown_title(chat.title@)
    }));
    let draft = !chat.draft.as_str().is_empty() && !selected;
    let mut prefix = String::new();
    if draft {
        prefix.push_str("Draft: ");
    } else if !chat.last_sender.as_str().is_empty() {
        prefix.push_str(&chat.last_sender);
        prefix.push_str(": ");
    }
    assert(prefix@ =~= preview_prefix(*chat, draft));
    let unread = badge_of(chat);
    let letters = initials(&title);
    ChatRowPlan {
        heading,
        title,
        initials: letters,
        muted: chat.muted,
        time: format_time_at(chat.last_time, now),
        prefix,
        draft,
        preview: if draft { chat.draft.clone() } else { chat.last_message.clone() },
        unread,
        unread_visible: unread > 0,
        unread_dot: collapsed && unread > 0,
        mentions: chat.mentions > 0,
        pin: chat.pinned && unread == 0,
        ticks: chat.last_outgoing && unread == 0 && !chat.pinned,
        read: chat.last_msg_id <= chat.read_outbox_max_id,
    }
}

/// What the menu of a chat offers, from the top.
pub open spec fn chat_items(chat: ChatSummary) -> Seq<(Seq<char>, ChatAction, bool)> {
    let unread = chat.unread > 0 || chat.unread_mark;
    seq![
        ("Open"@, ChatAction::Open, false),
        (
            if unread { "Mark as read"@ } else { "Mark as unread"@ },
            ChatAction::MarkUnread(!unread),
            false,
        ),
        (if chat.pinned { "Unpin"@ } else { "Pin"@ }, ChatAction::Pin(!chat.pinned), false),
    ] + (if chat.muted {
        seq![("Unmute"@, ChatAction::Mute(MuteMode::Unmute), false)]
    } else {
        seq![
            ("Mute for 1 hour"@, ChatAction::Mute(MuteMode::Hours(1)), false),
            ("Mute for 8 hours"@, ChatAction::Mute(MuteMode::Hours(8)), false),
            ("Mute for 2 days"@, ChatAction::Mute(MuteMode::Hours(48)), false),
            ("Mute forever"@, ChatAction::Mute(MuteMode::Forever), false),
        ]
    }) + seq![
        (
            if chat.archived { "Unarchive"@ } else { "Archive"@ },
            ChatAction::Archive(!chat.archived),
            false,
        ),
        ("Clear history"@, ChatAction::ClearHistory, true),
        ("Delete chat"@, ChatAction::Delete, true),
    ]
}

/// The menu of a chat.
pub fn show_context(chat: &ChatSummary) -> (items: Vec<MenuItem>)
    ensures
        item_models(items@) == chat_items(*chat),
{
    let unread = chat.unread > 0 || chat.unread_mark;
    let mut items: Vec<MenuItem> = Vec::new();
    items.push(MenuItem::new("Open", ChatAction::Open, false));
    items.push(
        MenuItem::new(
            if unread { "Mark as read" } else { "Mark as unread" },
            ChatAction::MarkUnread(!unread),
            false,
        ),
    );
    items.push(
        MenuItem::new(
            if chat.pinned { "Unpin" } else { "Pin" },
            ChatAction::Pin(!chat.pinned),
            false,
        ),
    );
    if chat.muted {
        items.push(MenuItem::new("Unmute", ChatAction::Mute(MuteMode::Unmute), false));
    } else {
        items.push(MenuItem::new("Mute for 1 hour", ChatAction::Mute(MuteMode::Hours(1)), false));
        items.push(MenuItem::new("Mute for 8 hours", ChatAction::Mute(MuteMode::Hours(8)), false));
        items.push(MenuItem::new("Mute for 2 days", ChatAction::Mute(MuteMode::Hours(48)), false));
        items.push(MenuItem::new("Mute forever", ChatAction::Mute(MuteMode::Forever), false));
    }
    items.push(
        MenuItem::new(
            if chat.archived { "Unarchive" } else { "Archive" },
            ChatAction::Archive(!chat.archived),
            false,
        ),
    );
    items.push(MenuItem::new("Clear history", ChatAction::ClearHistory, true));
    items.push(MenuItem::new("Delete chat", ChatAction::Delete, true));
    assert(item_models(items@) =~= chat_items(*chat));
    items
}

/// What stands above a message that was found: its chat, and its sender where that
/// is somebody else.
pub open spec fn found_heading(msg: Msg) -> Seq<char> {
    if msg.sender@.len() == 0 || msg.sender@ == msg.chat_title@ {
        msg.chat_title@
    } else {
        msg.chat_title@ + " · "@ + msg.sender@
    }
}

pub fn search_message_heading(msg: &Msg) -> (heading: String)
    ensures
        heading@ == found_heading(*msg),
{
    if msg.sender.as_str().is_empty() || same_text(&msg.sender, &msg.chat_title) {
        msg.chat_title.clone()
    } else {
        let mut heading = msg.chat_title.clone();
        heading.push_str(" · ");
        heading.push_str(&msg.sender);
        heading
    }
}

/// A chat's row never shows both a number and a pin or ticks: what is unread comes
/// first.
pub proof fn law_unread_comes_first(
    plan: ChatRowPlan,
    chat: ChatSummary,
    selected: bool,
    collapsed: bool,
    now: Stamp,
)
    requires
        plan.shows(chat, selected, collapsed, now),
    ensures
        plan.unread_visible ==> !plan.pin && !plan.ticks,
        !(plan.pin && plan.ticks),
{
}

} // verus!
