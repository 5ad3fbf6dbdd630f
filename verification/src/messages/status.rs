//! The header of the chat, and settings of the view.

use vstd::prelude::*;

use crate::clock::{formatted, Stamp};
use crate::messages::rows::{presence_label, presence_text, valid_time_format};
use crate::messages::view::{Header, MessagesView};
use crate::text::{decimal, push_integer};
use crate::tg::{ChatKind, ChatSummary, Presence};

verus! {

/// What the status says while somebody types.
pub open spec fn typing_text(name: Seq<char>) -> Seq<char> {
    if name.len() == 0 {
        "typing…"@
    } else {
        name + " is typing…"@
    }
}

/// What the header says about a chat of which only the list's summary is known.
pub open spec fn summary_status(kind: ChatKind, presence: Presence, now: Stamp) -> Seq<char> {
    match kind {
        ChatKind::User => presence_label(presence, now),
        ChatKind::Bot => "bot"@,
        ChatKind::Group | ChatKind::Channel => Seq::empty(),
        ChatKind::Saved => "saved messages"@,
    }
}

/// What the header says about a chat that is known in full.
pub open spec fn info_status(
    kind: ChatKind,
    members: Option<i32>,
    presence: Presence,
    now: Stamp,
) -> Seq<char> {
    match kind {
        ChatKind::Group => match members {
            Some(count) => decimal(count as int) + " members"@,
            None => Seq::empty(),
        },
        ChatKind::Channel => match members {
            Some(count) => decimal(count as int) + " subscribers"@,
            None => Seq::empty(),
        },
        ChatKind::User => presence_label(presence, now),
        ChatKind::Bot => "bot"@,
        ChatKind::Saved => "saved messages"@,
    }
}

fn count_text(members: Option<i32>, unit: &str) -> (text: String)
    ensures
        text@ == (match members {
            Some(count) => decimal(count as int) + unit@,
            None => Seq::empty(),
        }),
{
    let mut text = String::new();
    if let Some(count) = members {
        push_integer(&mut text, count as i64);
        text.push_str(unit);
        assert(text@ =~= decimal(count as int) + unit@);
    }
    text
}

impl Header {
    /// The header while somebody types.
    pub open spec fn types(self, before: Header, name: Seq<char>) -> bool {
        &&& self.status@ == typing_text(name)
        &&& self == (Header {
            status: self.status,
            typing: true,
            typing_generation: before.typing_generation.wrapping_add(1),
            ..before
        })
    }

    fn set_typing(&mut self, name: &str) -> (generation: u64)
        ensures
            final(self).types(*old(self), name@),
            generation == final(self).typing_generation,
    {
        let mut text = String::new();
        if name.is_empty() {
            text.push_str("typing…");
        } else {
            text.push_str(name);
            text.push_str(" is typing…");
        }
        assert(text@ =~= typing_text(name@));
        self.typing_generation = self.typing_generation.wrapping_add(1);
        self.status = text;
        self.typing = true;
        self.typing_generation
    }

    fn clear_typing_if(&mut self, generation: u64)
        ensures
            old(self).typing_generation != generation ==> *final(self) == *old(self),
            old(self).typing_generation == generation ==> {
                &&& final(self).status@ == old(self).base_status@
                &&& *final(self) == (Header {
                    status: final(self).status,
                    typing: false,
                    ..*old(self)
                })
            },
    {
        if self.typing_generation == generation {
            self.typing = false;
            self.status = self.base_status.clone();
        }
    }
}

impl MessagesView {
    /// Somebody types. Returns the number under which that is to end.
    pub fn set_typing(&mut self, name: &str) -> (generation: u64)
        ensures
            final(self).header.types(old(self).header, name@),
            generation == final(self).header.typing_generation,
            *final(self) == (MessagesView { header: final(self).header, ..*old(self) }),
    {
        self.header.set_typing(name)
    }

    /// Nobody types any more, unless somebody has begun again since.
    pub fn clear_typing_if(&mut self, generation: u64)
        ensures
            old(self).header.typing_generation != generation ==> final(self).header
                == old(self).header,
            old(self).header.typing_generation == generation ==> {
                &&& final(self).header.status@ == old(self).header.base_status@
                &&& final(self).header == (Header {
                    status: final(self).header.status,
                    typing: false,
                    ..old(self).header
                })
            },
            *final(self) == (MessagesView { header: final(self).header, ..*old(self) }),
    {
        self.header.clear_typing_if(generation);
    }

    pub fn clear_typing(&mut self)
        ensures
            final(self).header.stops_typing(old(self).header),
            *final(self) == (MessagesView { header: final(self).header, ..*old(self) }),
    {
        self.header.stop_typing();
    }

    pub fn typing_generation(&self) -> (generation: u64)
        ensures
            generation == self.header.typing_generation,
    {
        self.header.typing_generation
    }

    /// The strftime format used for message times. One that is not valid is not
    /// taken: the last valid format stays.
    pub fn set_time_format(&mut self, format: &str) -> (taken: bool)
        ensures
            taken == (formatted(946_782_345, 0, 0, format@) is Some),
            final(self).time_format@ == (if taken { format@ } else { old(self).time_format@ }),
            *final(self) == (MessagesView { time_format: final(self).time_format, ..*old(self) }),
    {
        if !valid_time_format(format) {
            return false;
        }
        self.time_format = format.to_owned();
        true
    }

    pub fn set_clock(&mut self, text: Option<&str>)
        ensures
            crate::clock::option_text(final(self).clock) == (match text {
                Some(shown) => Some(shown@),
                None => None,
            }),
            *final(self) == (MessagesView { clock: final(self).clock, ..*old(self) }),
    {
        self.clock = match text {
            Some(shown) => Some(shown.to_owned()),
            None => None,
        };
    }

    pub fn set_ghost(&mut self, on: bool)
        ensures
            *final(self) == (MessagesView { ghost_mode: on, ..*old(self) }),
    {
        self.ghost_mode = on;
    }

    pub fn set_edit_history(&mut self, on: bool)
        ensures
            *final(self) == (MessagesView { edit_history: on, ..*old(self) }),
    {
        self.edit_history = on;
    }

    pub fn set_ai_enabled(&mut self, on: bool)
        ensures
            *final(self) == (MessagesView { ai_enabled: on, ..*old(self) }),
    {
        self.ai_enabled = on;
    }

    pub fn set_status(&mut self, text: Option<&str>)
        ensures
            match text {
                Some(status) => {
                    &&& final(self).header.base_status@ == status@
                    &&& final(self).header.status@ == status@
                    &&& final(self).header == (Header {
                        base_status: final(self).header.base_status,
                        status: final(self).header.status,
                        ..old(self).header
                    })
                },
                None => {
                    &&& final(self).header.base_status@.len() == 0
                    &&& final(self).header.stops_typing(
                        (Header { base_status: final(self).header.base_status, ..old(self).header }),
                    )
                },
            },
            *final(self) == (MessagesView { header: final(self).header, ..*old(self) }),
    {
        match text {
            Some(status) => {
                self.header.base_status = status.to_owned();
                self.header.status = status.to_owned();
            },
            None => {
                self.header.base_status = String::new();
                self.header.stop_typing();
            },
        }
    }

    /// Shows what the chat list knows of the chat.
    pub fn set_chat_summary(&mut self, summary: &ChatSummary, now: Stamp)
        ensures
            final(self).header.title@ == summary.title@,
            final(self).header.kind == summary.kind,
            final(self).header.summary == Some(*summary),
            final(self).header.has_status(
                (Header {
                    title: final(self).header.title,
                    kind: summary.kind,
                    summary: Some(*summary),
                    ..old(self).header
                }),
                summary_status(summary.kind, summary.presence, now),
                summary.presence is Online,
            ),
            final(self).read_outbox == (if summary.read_outbox_max_id > old(self).read_outbox {
                summary.read_outbox_max_id
            } else {
                old(self).read_outbox
            }),
            *final(self) == (MessagesView {
                header: final(self).header,
                read_outbox: final(self).read_outbox,
                ..*old(self)
            }),
    {
        let status = match summary.kind {
            ChatKind::User => presence_text(summary.presence, now),
            ChatKind::Bot => "bot".to_owned(),
            ChatKind::Group | ChatKind::Channel => String::new(),
            ChatKind::Saved => "saved messages".to_owned(),
        };
        let online = matches!(summary.presence, Presence::Online);
        self.header.title = summary.title.clone();
        self.header.kind = summary.kind;
        self.header.summary = Some(summary.clone());
        self.header.set_base_status(&status, online);
        let read = self.read_outbox;
        self.read_outbox = if summary.read_outbox_max_id > read {
            summary.read_outbox_max_id
        } else {
            read
        };
    }

    /// Shows how many members a chat has, or when its user was last seen.
    pub fn set_chat_info(
        &mut self,
        kind: ChatKind,
        members: Option<i32>,
        presence: Presence,
        now: Stamp,
    )
        ensures
            final(self).header.has_status(
                old(self).header,
                info_status(kind, members, presence, now),
                presence is Online,
            ),
            *final(self) == (MessagesView { header: final(self).header, ..*old(self) }),
    {
        let status = match kind {
            ChatKind::Group => count_text(members, " members"),
            ChatKind::Channel => count_text(members, " subscribers"),
            ChatKind::User => presence_text(presence, now),
            ChatKind::Bot => "bot".to_owned(),
            ChatKind::Saved => "saved messages".to_owned(),
        };
        self.header.set_base_status(&status, matches!(presence, Presence::Online));
    }

    /// The header of a chat that is not Telegram's.
    pub fn set_virtual_header(&mut self, assistant: bool)
        ensures
            final(self).header.title@ == (if assistant { "Assistant"@ } else { "Omarchy"@ }),
            final(self).header.has_status(
                (Header {
                    title: final(self).header.title,
                    kind: ChatKind::Bot,
                    summary: None,
                    ..old(self).header
                }),
                "local"@,
                false,
            ),
            *final(self) == (MessagesView { header: final(self).header, ..*old(self) }),
    {
        self.header.title = if assistant {
            "Assistant".to_owned()
        } else {
            "Omarchy".to_owned()
        };
        self.header.kind = ChatKind::Bot;
        self.header.summary = None;
        self.header.set_base_status("local", false);
    }

    /// The chat's user was seen.
    pub fn set_presence(&mut self, presence: Presence, now: Stamp)
        ensures
            final(self).header.summary == (match old(self).header.summary {
                Some(summary) => Some(ChatSummary { presence, ..summary }),
                None => None,
            }),
            final(self).header.has_status(
                (Header { summary: final(self).header.summary, ..old(self).header }),
                presence_label(presence, now),
                presence is Online,
            ),
            *final(self) == (MessagesView { header: final(self).header, ..*old(self) }),
    {
        let status = presence_text(presence, now);
        let summary = self.header.summary.take();
        self.header.summary = match summary {
            Some(mut known) => {
                known.presence = presence;
                Some(known)
            },
            None => None,
        };
        self.header.set_base_status(&status, matches!(presence, Presence::Online));
    }

    /// Own messages up to this one were read. The mark never goes back.
    pub fn set_read_outbox(&mut self, max_id: i32)
        ensures
            *final(self) == (MessagesView {
                read_outbox: if max_id > old(self).read_outbox {
                    max_id
                } else {
                    old(self).read_outbox
                },
                ..*old(self)
            }),
    {
        let read = self.read_outbox;
        self.read_outbox = if max_id > read { max_id } else { read };
    }

    /// A message came in just now.
    pub fn mark_recent_incoming(&mut self)
        ensures
            final(self).header == (Header { presence_recent: true, ..old(self).header }),
            *final(self) == (MessagesView { header: final(self).header, ..*old(self) }),
    {
        self.header.presence_recent = true;
    }

    pub fn clear_recent_presence(&mut self)
        ensures
            final(self).header == (Header {
                presence_recent: false,
                online_dot: false,
                ..old(self).header
            }),
            *final(self) == (MessagesView { header: final(self).header, ..*old(self) }),
    {
        self.header.presence_recent = false;
        self.header.online_dot = false;
    }

    pub fn header_title(&self) -> (title: String)
        ensures
            title == self.header.title,
    {
        self.header.title.clone()
    }
}

/// A message that was read stays read, whatever is read after it.
pub proof fn law_read_mark_only_rises(before: i32, max_id: i32, id: i32, pending: bool)
    ensures
        ({
            let after = if max_id > before { max_id } else { before };
            &&& after >= before
            &&& crate::messages::rows::receipt(pending, id, before)
                == crate::messages::rows::Receipt::Read ==> crate::messages::rows::receipt(
                pending,
                id,
                after,
            ) == crate::messages::rows::Receipt::Read
        }),
{
}

} // verus!
