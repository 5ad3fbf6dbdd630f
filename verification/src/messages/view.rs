//! The state of the message view, and what each event does to it.

use std::collections::{HashMap, HashSet};

use vstd::prelude::*;

use crate::messages::composer::{Composer, EditLabel};
use crate::messages::store::{holds, place_of, MessageEntry, MessageStore};
use crate::tg::{ChatKind, ChatSummary};

verus! {

/// What the middle of an empty view says.
#[derive(Debug, Clone, Copy, PartialEq, Eq, Structural)]
pub enum Placeholder {
    SelectChat,
    Loading,
    NoMessages,
}

impl Placeholder {
    pub fn text(self) -> (text: &'static str)
        ensures
            text@ == (match self {
                Placeholder::SelectChat => "Select a chat"@,
                Placeholder::Loading => "Loading…"@,
                Placeholder::NoMessages => "No messages yet"@,
            }),
    {
        match self {
            Placeholder::SelectChat => "Select a chat",
            Placeholder::Loading => "Loading…",
            Placeholder::NoMessages => "No messages yet",
        }
    }
}

/// Where the list stands, and whether more of it is being loaded.
#[derive(Debug, Clone, Copy, PartialEq, Eq, Structural)]
pub struct Scroll {
    /// Which opening of a chat the list belongs to.
    pub epoch: u64,
    pub placeholder: Placeholder,
    pub placeholder_visible: bool,
    pub spinner: bool,
    /// Whether an older page is being loaded.
    pub paging: bool,
    /// Whether there is no older page.
    pub exhausted: bool,
    /// Whether scrolling is not to load an older page just now.
    pub suppress_paging: bool,
    pub stick_to_bottom: bool,
    /// Whether an older page is shown that does not reach to the latest message.
    pub detached: bool,
    pub bottom_button: bool,
    pub bottom_unread: u32,
    pub bottom_badge: bool,
    /// Whether the line above the first unread message was shown.
    pub unread_divider_shown: bool,
    pub empty_effects: bool,
}

/// What stands above the list.
pub struct Header {
    pub title: String,
    pub actions: bool,
    pub summary: Option<ChatSummary>,
    pub kind: ChatKind,
    /// What the status says while nobody types.
    pub base_status: String,
    pub status: String,
    pub typing: bool,
    pub typing_generation: u64,
    pub online: bool,
    pub online_dot: bool,
    pub presence_recent: bool,
}

/// What went wrong last.
pub struct Notice {
    pub error: String,
    pub visible: bool,
    pub draft_retry: bool,
}

/// Who wrote a message that is quoted, and what.
pub struct Quote {
    pub sender: String,
    pub text: String,
}

/// A line below a message: what the assistant found out about it.
pub struct AuxLine {
    pub id: i32,
    pub text: String,
    pub error: bool,
}

/// Something that waits for the file of a message.
#[derive(Debug, Clone, Copy, PartialEq, Eq, Structural)]
pub struct Waiting {
    pub id: i32,
    pub token: u64,
}

/// The view of one chat.
pub struct MessagesView {
    pub store: MessageStore,
    pub scroll: Scroll,
    pub header: Header,
    pub notice: Notice,
    pub composer: Composer,
    pub composer_enabled: bool,
    pub drop_enabled: bool,
    pub busy: bool,
    pub virtual_mode: bool,
    pub ai_enabled: bool,
    pub edit_history: bool,
    pub ghost_mode: bool,
    pub clock: Option<String>,
    pub time_format: String,
    pub read_outbox: i32,
    pub pending_messages: HashSet<i32>,
    pub quote_cache: HashMap<i32, Quote>,
    pub aux: Vec<AuxLine>,
    pub media_ready: Vec<Waiting>,
    pub edited_now: Vec<i32>,
    pub divider: Option<i32>,
    pub initial_render_count: u64,
    pub history_version_count: usize,
    pub history_current_text: Option<String>,
}

impl Header {
    /// The header with another base status, which also becomes the status.
    pub open spec fn stops_typing(self, before: Header) -> bool {
        &&& self.status@ == before.base_status@
        &&& self == (Header {
            status: self.status,
            typing: false,
            typing_generation: before.typing_generation.wrapping_add(1),
            ..before
        })
    }

    pub(crate) fn stop_typing(&mut self)
        ensures
            final(self).stops_typing(*old(self)),
    {
        self.typing_generation = self.typing_generation.wrapping_add(1);
        self.typing = false;
        self.status = self.base_status.clone();
    }

    /// The header with another base status.
    pub open spec fn has_status(self, before: Header, status: Seq<char>, online: bool) -> bool {
        &&& self.base_status@ == status
        &&& self.status@ == (if before.typing { before.status@ } else { status })
        &&& self == (Header {
            base_status: self.base_status,
            status: self.status,
            online,
            online_dot: online,
            ..before
        })
    }

    pub(crate) fn set_base_status(&mut self, status: &str, online: bool)
        ensures
            final(self).has_status(*old(self), status@, online),
    {
        self.base_status = status.to_owned();
        if !self.typing {
            self.status = status.to_owned();
        }
        self.online_dot = online;
        self.online = online;
    }
}

impl Notice {
    /// Nothing went wrong.
    pub open spec fn clear(self) -> bool {
        self.error@.len() == 0 && !self.visible && !self.draft_retry
    }

    fn clear_error(&mut self)
        ensures
            final(self).clear(),
    {
        self.error = String::new();
        self.visible = false;
        self.draft_retry = false;
    }
}

impl MessagesView {
    pub open spec fn well_formed(self) -> bool {
        self.store.well_formed()
    }

    /// Whether a message is in the list.
    pub open spec fn knows(self, id: i32) -> bool {
        holds(self.store.entries@, id)
    }

    /// The entry of a message that is in the list.
    pub open spec fn entry(self, id: i32) -> MessageEntry {
        self.store.entries@[place_of(self.store.entries@, id)]
    }

    /// Nothing of an earlier list is left.
    pub open spec fn list_is_empty(self) -> bool {
        &&& self.store.entries@.len() == 0
        &&& self.aux@.len() == 0
        &&& self.media_ready@.len() == 0
        &&& self.quote_cache@ == Map::<i32, Quote>::empty()
        &&& self.pending_messages@ == Set::<i32>::empty()
        &&& self.divider is None
        &&& self.edited_now@.len() == 0
    }

    pub fn new() -> (view: MessagesView)
        ensures
            view.well_formed(),
            view.list_is_empty(),
            view.store.chat_id is None,
            view.scroll == (Scroll {
                epoch: 0,
                placeholder: Placeholder::SelectChat,
                placeholder_visible: true,
                spinner: false,
                paging: false,
                exhausted: false,
                suppress_paging: false,
                stick_to_bottom: true,
                detached: false,
                bottom_button: false,
                bottom_unread: 0,
                bottom_badge: false,
                unread_divider_shown: false,
                empty_effects: false,
            }),
            view.header.title@ == "Select a chat"@,
            !view.header.actions,
            view.header.summary is None,
            view.header.kind == ChatKind::User,
            view.header.base_status@.len() == 0,
            view.header.status@.len() == 0,
            !view.header.typing,
            view.header.typing_generation == 0,
            !view.header.online,
            !view.header.online_dot,
            !view.header.presence_recent,
            view.notice.clear(),
            view.composer.untouched(),
            !view.composer_enabled,
            view.drop_enabled,
            !view.busy,
            !view.virtual_mode,
            !view.ai_enabled,
            !view.edit_history,
            !view.ghost_mode,
            view.clock is None,
            view.time_format@ == "%H:%M"@,
            view.read_outbox == 0,
            view.initial_render_count == 0,
            view.history_version_count == 0,
            view.history_current_text is None,
    {
        MessagesView {
            store: MessageStore::empty(None),
            scroll: Scroll {
                epoch: 0,
                placeholder: Placeholder::SelectChat,
                placeholder_visible: true,
                spinner: false,
                paging: false,
                exhausted: false,
                suppress_paging: false,
                stick_to_bottom: true,
                detached: false,
                bottom_button: false,
                bottom_unread: 0,
                bottom_badge: false,
                unread_divider_shown: false,
                empty_effects: false,
            },
            header: Header {
                title: "Select a chat".to_owned(),
                actions: false,
                summary: None,
                kind: ChatKind::User,
                base_status: String::new(),
                status: String::new(),
                typing: false,
                typing_generation: 0,
                online: false,
                online_dot: false,
                presence_recent: false,
            },
            notice: Notice { error: String::new(), visible: false, draft_retry: false },
            composer: Composer::new(),
            composer_enabled: false,
            drop_enabled: true,
            busy: false,
            virtual_mode: false,
            ai_enabled: false,
            edit_history: false,
            ghost_mode: false,
            clock: None,
            time_format: "%H:%M".to_owned(),
            read_outbox: 0,
            pending_messages: HashSet::new(),
            quote_cache: HashMap::new(),
            aux: Vec::new(),
            media_ready: Vec::new(),
            edited_now: Vec::new(),
            divider: None,
            initial_render_count: 0,
            history_version_count: 0,
            history_current_text: None,
        }
    }

    /// Empties the list for a chat.
    fn clear_list(&mut self, chat_id: Option<i64>)
        ensures
            final(self).well_formed(),
            final(self).list_is_empty(),
            final(self).store.chat_id == chat_id,
            *final(self) == (MessagesView {
                store: final(self).store,
                aux: final(self).aux,
                media_ready: final(self).media_ready,
                quote_cache: final(self).quote_cache,
                pending_messages: final(self).pending_messages,
                edited_now: final(self).edited_now,
                divider: None,
                ..*old(self)
            }),
    {
        self.media_ready = Vec::new();
        self.quote_cache = HashMap::new();
        self.pending_messages = HashSet::new();
        self.aux = Vec::new();
        self.edited_now = Vec::new();
        self.divider = None;
        self.store = MessageStore::empty(chat_id);
    }

    /// The place of a list that is being loaded.
    pub open spec fn loading_scroll(before: Scroll, epoch: u64) -> Scroll {
        Scroll {
            epoch,
            placeholder: Placeholder::Loading,
            placeholder_visible: true,
            spinner: true,
            paging: false,
            exhausted: false,
            suppress_paging: true,
            stick_to_bottom: true,
            unread_divider_shown: false,
            empty_effects: false,
            ..before
        }
    }

    /// Opens a chat: nothing of the chat before is kept.
    pub fn reset_chat(&mut self, chat_id: i64, title: &str, epoch: u64, virtual_chat: bool)
        ensures
            final(self).well_formed(),
            final(self).list_is_empty(),
            final(self).store.chat_id == Some(chat_id),
            final(self).scroll == (Scroll {
                detached: false,
                bottom_button: false,
                bottom_unread: 0,
                bottom_badge: false,
                ..MessagesView::loading_scroll(old(self).scroll, epoch)
            }),
            final(self).header.title@ == title@,
            final(self).header.base_status@.len() == 0,
            final(self).header.status@.len() == 0,
            final(self).header == (Header {
                title: final(self).header.title,
                actions: true,
                summary: None,
                base_status: final(self).header.base_status,
                status: final(self).header.status,
                typing: false,
                typing_generation: old(self).header.typing_generation.wrapping_add(1),
                online_dot: false,
                presence_recent: false,
                ..old(self).header
            }),
            final(self).notice.clear(),
            final(self).composer.text@.len() == 0,
            final(self).composer == (Composer {
                text: final(self).composer.text,
                cursor: 0,
                reply_to: None,
                reply_bar: false,
                edit: None,
                edit_label: EditLabel::Editing,
                edit_bar: false,
                ai_draft: false,
                ..old(self).composer
            }),
            final(self).virtual_mode == virtual_chat,
            final(self).composer_enabled == (virtual_chat || !old(self).busy),
            final(self).read_outbox == 0,
            *final(self) == (MessagesView {
                store: final(self).store,
                scroll: final(self).scroll,
                header: final(self).header,
                notice: final(self).notice,
                composer: final(self).composer,
                composer_enabled: final(self).composer_enabled,
                virtual_mode: virtual_chat,
                read_outbox: 0,
                aux: final(self).aux,
                media_ready: final(self).media_ready,
                quote_cache: final(self).quote_cache,
                pending_messages: final(self).pending_messages,
                edited_now: final(self).edited_now,
                divider: None,
                ..*old(self)
            }),
    {
        self.header.presence_recent = false;
        self.header.online_dot = false;
        self.virtual_mode = virtual_chat;
        self.composer_enabled = virtual_chat || !self.busy;
        self.composer.reset();
        self.notice.clear_error();
        self.header.stop_typing();
        self.read_outbox = 0;
        self.clear_list(Some(chat_id));
        self.header.title = title.to_owned();
        self.header.actions = true;
        self.header.summary = None;
        self.header.base_status = String::new();
        self.header.status = String::new();
        self.scroll.epoch = epoch;
        self.scroll.placeholder = Placeholder::Loading;
        self.scroll.placeholder_visible = true;
        self.scroll.spinner = true;
        self.set_detached(false);
        self.scroll.paging = false;
        self.scroll.exhausted = false;
        self.scroll.suppress_paging = true;
        self.scroll.stick_to_bottom = true;
        self.scroll.unread_divider_shown = false;
        self.scroll.empty_effects = false;
    }

    /// Closes the chat.
    pub fn clear_selection(&mut self, epoch: u64)
        ensures
            final(self).well_formed(),
            final(self).list_is_empty(),
            final(self).store.chat_id is None,
            final(self).scroll == (Scroll {
                epoch,
                placeholder: Placeholder::SelectChat,
                placeholder_visible: true,
                spinner: false,
                paging: false,
                exhausted: false,
                suppress_paging: true,
                detached: false,
                bottom_button: false,
                bottom_unread: 0,
                bottom_badge: false,
                unread_divider_shown: false,
                empty_effects: true,
                ..old(self).scroll
            }),
            final(self).header.title@ == "Select a chat"@,
            final(self).header.base_status@.len() == 0,
            final(self).header.status@ == old(self).header.base_status@,
            final(self).header == (Header {
                title: final(self).header.title,
                actions: false,
                summary: None,
                base_status: final(self).header.base_status,
                status: final(self).header.status,
                typing: false,
                typing_generation: old(self).header.typing_generation.wrapping_add(1),
                online_dot: false,
                presence_recent: false,
                ..old(self).header
            }),
            final(self).notice.clear(),
            final(self).composer.text@.len() == 0,
            final(self).composer == (Composer {
                text: final(self).composer.text,
                cursor: 0,
                reply_to: None,
                reply_bar: false,
                edit: None,
                edit_bar: false,
                ai_draft: false,
                ..old(self).composer
            }),
            *final(self) == (MessagesView {
                store: final(self).store,
                scroll: final(self).scroll,
                header: final(self).header,
                notice: final(self).notice,
                composer: final(self).composer,
                composer_enabled: false,
                virtual_mode: false,
                read_outbox: 0,
                aux: final(self).aux,
                media_ready: final(self).media_ready,
                quote_cache: final(self).quote_cache,
                pending_messages: final(self).pending_messages,
                edited_now: final(self).edited_now,
                divider: None,
                ..*old(self)
            }),
    {
        self.header.presence_recent = false;
        self.header.online_dot = false;
        self.virtual_mode = false;
        let label = self.composer.edit_label;
        self.composer.reset();
        self.composer.edit_label = label;
        self.notice.clear_error();
        self.header.stop_typing();
        self.read_outbox = 0;
        self.clear_list(None);
        self.header.title = "Select a chat".to_owned();
        self.header.actions = false;
        self.header.summary = None;
        self.header.base_status = String::new();
        self.composer_enabled = false;
        self.scroll.epoch = epoch;
        self.scroll.placeholder = Placeholder::SelectChat;
        self.scroll.placeholder_visible = true;
        self.scroll.spinner = false;
        self.set_detached(false);
        self.scroll.paging = false;
        self.scroll.exhausted = false;
        self.scroll.suppress_paging = true;
        self.scroll.unread_divider_shown = false;
        self.scroll.empty_effects = true;
    }

    /// Empties the list to load another page of the same chat. The composer keeps
    /// its text and its mode.
    pub fn reset_history(&mut self, chat_id: i64, epoch: u64)
        ensures
            final(self).well_formed(),
            final(self).list_is_empty(),
            final(self).store.chat_id == Some(chat_id),
            final(self).scroll == MessagesView::loading_scroll(old(self).scroll, epoch),
            final(self).header.stops_typing(old(self).header),
            final(self).notice.clear(),
            *final(self) == (MessagesView {
                store: final(self).store,
                scroll: final(self).scroll,
                header: final(self).header,
                notice: final(self).notice,
                aux: final(self).aux,
                media_ready: final(self).media_ready,
                quote_cache: final(self).quote_cache,
                pending_messages: final(self).pending_messages,
                edited_now: final(self).edited_now,
                divider: None,
                ..*old(self)
            }),
    {
        self.notice.clear_error();
        self.header.stop_typing();
        self.clear_list(Some(chat_id));
        self.scroll.epoch = epoch;
        self.scroll.placeholder = Placeholder::Loading;
        self.scroll.placeholder_visible = true;
        self.scroll.spinner = true;
        self.scroll.paging = false;
        self.scroll.exhausted = false;
        self.scroll.suppress_paging = true;
        self.scroll.stick_to_bottom = true;
        self.scroll.unread_divider_shown = false;
        self.scroll.empty_effects = false;
    }

    /// Detached: viewing an older page that was jumped to. The button that reloads
    /// the latest page stays visible.
    pub fn set_detached(&mut self, detached: bool)
        ensures
            final(self).scroll == (Scroll {
                detached,
                bottom_button: detached,
                bottom_unread: if detached { old(self).scroll.bottom_unread } else { 0 },
                bottom_badge: detached && old(self).scroll.bottom_badge,
                ..old(self).scroll
            }),
            *final(self) == (MessagesView { scroll: final(self).scroll, ..*old(self) }),
    {
        let before = self.scroll;
        self.scroll = Scroll {
            detached,
            bottom_button: detached,
            bottom_unread: if detached { before.bottom_unread } else { 0 },
            bottom_badge: detached && before.bottom_badge,
            ..before
        };
    }

    pub fn is_detached(&self) -> (answer: bool)
        ensures
            answer == self.scroll.detached,
    {
        self.scroll.detached
    }
}

} // verus!
