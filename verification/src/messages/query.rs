//! What can be asked of the list, and the menus of its messages.

use std::collections::HashSet;

use vstd::prelude::*;

use crate::menus::{ChatAction, MenuItem};
use crate::messages::media::{drop_lines, lines_of_others};
use crate::messages::modes::editable;
use crate::messages::rows::{
    build_row, format_time, placement_at, reorder_rows, time_label, time_label_text, time_text,
    Placement, RowPlan, RowSettings,
};
use crate::messages::store::{holds, place_of, MediaState, MessageEntry};
use crate::messages::view::{MessagesView, Placeholder};
use crate::text::{characters, same_text};
use crate::tg::{MediaKind, Msg, MsgVersion, MuteMode};

verus! {

/// In a list that is in order no id occurs twice.
proof fn lemma_ascending_ids(view: MessagesView)
    ensures
        view.well_formed() ==> view.store.order().no_duplicates(),
{
    let entries = view.store.entries@;
    let order = view.store.order();
    if view.well_formed() {
        assert forall|i: int, j: int|
            0 <= i < order.len() && 0 <= j < order.len() && i != j implies order[i] != order[j] by {
            assert(order[i] == entries[i].msg.id);
            assert(order[j] == entries[j].msg.id);
            if i < j {
                assert(entries[i].msg.id < entries[j].msg.id);
            } else {
                assert(entries[j].msg.id < entries[i].msg.id);
            }
        }
    }
}

/// Which message is the last one that is not left out.
pub open spec fn last_kept(entries: Seq<MessageEntry>, left_out: spec_fn(i32) -> bool) -> int
    decreases entries.len(),
{
    if entries.len() == 0 {
        -1
    } else if !left_out(entries.last().msg.id) {
        entries.len() - 1
    } else {
        last_kept(entries.drop_last(), left_out)
    }
}

/// Whether something holds of the message at `at`, and of none before it.
pub open spec fn first_at(entries: Seq<MessageEntry>, wanted: spec_fn(Msg) -> bool, at: int) -> bool {
    &&& 0 <= at < entries.len()
    &&& wanted(entries[at].msg)
    &&& forall|i: int| 0 <= i < at ==> !wanted((#[trigger] entries[i]).msg)
}

/// The first message for which something holds, where there is one.
pub open spec fn is_first(
    entries: Seq<MessageEntry>,
    wanted: spec_fn(Msg) -> bool,
    found: Option<i32>,
) -> bool {
    match found {
        Some(id) => exists|at: int| #[trigger]
            first_at(entries, wanted, at) && entries[at].msg.id == id,
        None => forall|i: int| 0 <= i < entries.len() ==> !wanted((#[trigger] entries[i]).msg),
    }
}

/// What the menu of a message offers.
#[derive(Debug, Clone, Copy, PartialEq, Eq, Structural)]
pub enum ContextItem {
    Copy,
    CopyMessageId,
    CopyUserId,
    EditHistory,
    DraftReply,
    Translate,
    Summarize,
    Reply,
    Edit,
    Delete,
}

impl ContextItem {
    pub fn label(self) -> (label: &'static str)
        ensures
            label@ == (match self {
                ContextItem::Copy => "Copy"@,
                ContextItem::CopyMessageId => "Copy message id"@,
                ContextItem::CopyUserId => "Copy user id"@,
                ContextItem::EditHistory => "Edit history"@,
                ContextItem::DraftReply => "Draft reply with AI"@,
                ContextItem::Translate => "Translate"@,
                ContextItem::Summarize => "Summarize"@,
                ContextItem::Reply => "Reply"@,
                ContextItem::Edit => "Edit"@,
                ContextItem::Delete => "Delete"@,
            }),
    {
        match self {
            ContextItem::Copy => "Copy",
            ContextItem::CopyMessageId => "Copy message id",
            ContextItem::CopyUserId => "Copy user id",
            ContextItem::EditHistory => "Edit history",
            ContextItem::DraftReply => "Draft reply with AI",
            ContextItem::Translate => "Translate",
            ContextItem::Summarize => "Summarize",
            ContextItem::Reply => "Reply",
            ContextItem::Edit => "Edit",
            ContextItem::Delete => "Delete",
        }
    }
}

/// One entry of a menu, where it is offered.
pub open spec fn offered(item: ContextItem, wanted: bool) -> Seq<ContextItem> {
    if wanted {
        seq![item]
    } else {
        Seq::empty()
    }
}

/// What the menu of a message offers, from the top. Of the chats that are not
/// Telegram's, and of deleted messages, the text can be copied and nothing else.
pub open spec fn context_items(
    msg: Msg,
    virtual_chat: bool,
    edit_history: bool,
    ai_enabled: bool,
) -> Seq<ContextItem> {
    if virtual_chat || msg.deleted {
        seq![ContextItem::Copy]
    } else {
        seq![ContextItem::Copy, ContextItem::CopyMessageId]
            + offered(ContextItem::CopyUserId, msg.sender_id is Some)
            + offered(ContextItem::EditHistory, msg.edited && edit_history)
            + offered(ContextItem::DraftReply, ai_enabled)
            + offered(ContextItem::Translate, ai_enabled && msg.text@.len() > 0)
            + offered(ContextItem::Summarize, ai_enabled && msg.text@.len() > 300)
            + seq![ContextItem::Reply]
            + offered(ContextItem::Edit, editable(msg))
            + offered(ContextItem::Delete, msg.outgoing)
    }
}

fn offer(items: &mut Vec<ContextItem>, item: ContextItem, wanted: bool)
    ensures
        final(items)@ == old(items)@ + offered(item, wanted),
{
    if wanted {
        items.push(item);
    }
    assert(items@ =~= old(items)@ + offered(item, wanted));
}

/// The menu of a message.
pub fn context_menu(msg: &Msg, virtual_chat: bool, edit_history: bool, ai_enabled: bool) -> (items:
    Vec<ContextItem>)
    ensures
        items@ == context_items(*msg, virtual_chat, edit_history, ai_enabled),
{
    let mut items: Vec<ContextItem> = Vec::new();
    items.push(ContextItem::Copy);
    if virtual_chat || msg.deleted {
        assert(items@ =~= seq![ContextItem::Copy]);
        return items;
    }
    items.push(ContextItem::CopyMessageId);
    let length: usize = characters(&msg.text).len();
    offer(&mut items, ContextItem::CopyUserId, msg.sender_id.is_some());
    offer(&mut items, ContextItem::EditHistory, msg.edited && edit_history);
    offer(&mut items, ContextItem::DraftReply, ai_enabled);
    offer(&mut items, ContextItem::Translate, ai_enabled && length > 0);
    offer(&mut items, ContextItem::Summarize, ai_enabled && length > 300);
    items.push(ContextItem::Reply);
    offer(&mut items, ContextItem::Edit, msg.outgoing && msg.media.is_none() && length > 0);
    offer(&mut items, ContextItem::Delete, msg.outgoing);
    assert(items@ =~= context_items(*msg, virtual_chat, edit_history, ai_enabled));
    items
}

/// What the header's menu offers, from the top.
pub open spec fn header_items(muted: bool, pinned: bool) -> Seq<(Seq<char>, ChatAction, bool)> {
    seq![
        ("Search"@, ChatAction::Search, false),
        if muted {
            ("Unmute"@, ChatAction::Mute(MuteMode::Unmute), false)
        } else {
            ("Mute"@, ChatAction::Mute(MuteMode::Forever), false)
        },
        (if pinned { "Unpin"@ } else { "Pin"@ }, ChatAction::Pin(!pinned), false),
        ("Mark as unread"@, ChatAction::MarkUnread(true), false),
        ("Jump to date"@, ChatAction::JumpToDate, false),
        ("Clear history"@, ChatAction::ClearHistory, true),
        ("Delete chat"@, ChatAction::Delete, true),
        ("Chat info"@, ChatAction::Info, false),
    ]
}

/// What the entries of a menu say and do.
pub open spec fn item_models(items: Seq<MenuItem>) -> Seq<(Seq<char>, ChatAction, bool)> {
    items.map_values(|item: MenuItem| item.model())
}

/// The menu of a chat's header.
pub fn header_menu(muted: bool, pinned: bool) -> (items: Vec<MenuItem>)
    ensures
        item_models(items@) == header_items(muted, pinned),
{
    let mut items: Vec<MenuItem> = Vec::new();
    items.push(MenuItem::new("Search", ChatAction::Search, false));
    items.push(
        if muted {
            MenuItem::new("Unmute", ChatAction::Mute(MuteMode::Unmute), false)
        } else {
            MenuItem::new("Mute", ChatAction::Mute(MuteMode::Forever), false)
        },
    );
    items.push(
        MenuItem::new(if pinned { "Unpin" } else { "Pin" }, ChatAction::Pin(!pinned), false),
    );
    items.push(MenuItem::new("Mark as unread", ChatAction::MarkUnread(true), false));
    items.push(MenuItem::new("Jump to date", ChatAction::JumpToDate, false));
    items.push(MenuItem::new("Clear history", ChatAction::ClearHistory, true));
    items.push(MenuItem::new("Delete chat", ChatAction::Delete, true));
    items.push(MenuItem::new("Chat info", ChatAction::Info, false));
    assert(item_models(items@) =~= header_items(muted, pinned));
    items
}

/// A line of the history of a message: when the text was replaced, and the text.
pub struct HistoryLine {
    pub time: String,
    pub text: String,
}

impl MessagesView {
    /// The message with an id.
    pub fn message(&self, msg_id: i32) -> (msg: Option<Msg>)
        requires
            self.well_formed(),
        ensures
            match msg {
                Some(found) => self.knows(msg_id) && found.same(self.entry(msg_id).msg),
                None => !self.knows(msg_id),
            },
    {
        match self.store.position(msg_id) {
            Some(at) => Some(self.store.entries[at].msg.clone()),
            None => None,
        }
    }

    /// All messages in order.
    pub fn messages(&self) -> (messages: Vec<Msg>)
        ensures
            messages@.len() == self.store.entries@.len(),
            forall|i: int|
                0 <= i < messages@.len() ==> (#[trigger] messages@[i]).same(
                    self.store.entries@[i].msg,
                ),
    {
        let mut messages: Vec<Msg> = Vec::new();
        let mut i: usize = 0;
        while i < self.store.entries.len()
            invariant
                i <= self.store.entries@.len(),
                messages@.len() == i,
                forall|j: int|
                    0 <= j < i ==> (#[trigger] messages@[j]).same(self.store.entries@[j].msg),
            decreases self.store.entries@.len() - i,
        {
            messages.push(self.store.entries[i].msg.clone());
            i += 1;
        }
        messages
    }

    pub fn last_id(&self) -> (id: Option<i32>)
        ensures
            id == (if self.store.entries@.len() == 0 {
                None
            } else {
                Some(self.store.entries@.last().msg.id)
            }),
    {
        let count: usize = self.store.entries.len();
        if count == 0 {
            None
        } else {
            Some(self.store.entries[count - 1].msg.id)
        }
    }

    pub fn last_message(&self) -> (msg: Option<Msg>)
        ensures
            match msg {
                Some(found) => self.store.entries@.len() > 0 && found.same(
                    self.store.entries@.last().msg,
                ),
                None => self.store.entries@.len() == 0,
            },
    {
        let count: usize = self.store.entries.len();
        if count == 0 {
            None
        } else {
            Some(self.store.entries[count - 1].msg.clone())
        }
    }

    /// The last message but for one.
    pub fn last_before(&self, msg_id: i32) -> (msg: Option<Msg>)
        ensures
            ({
                let at = last_kept(self.store.entries@, |id: i32| id == msg_id);
                match msg {
                    Some(found) => 0 <= at < self.store.entries@.len() && found.same(
                        self.store.entries@[at].msg,
                    ),
                    None => at < 0,
                }
            }),
    {
        let mut excluded: Vec<i32> = Vec::new();
        excluded.push(msg_id);
        proof {
            assert forall|id: i32| excluded@.contains(id) <==> id == msg_id by {
                assert(excluded@[0] == msg_id);
            }
            lemma_same_last(
                self.store.entries@,
                |id: i32| id == msg_id,
                |id: i32| excluded@.contains(id),
            );
        }
        self.last_excluding(&excluded)
    }

    /// The last message that is not among those left out.
    pub fn last_excluding(&self, excluded: &[i32]) -> (msg: Option<Msg>)
        ensures
            ({
                let at = last_kept(self.store.entries@, |id: i32| excluded@.contains(id));
                match msg {
                    Some(found) => 0 <= at < self.store.entries@.len() && found.same(
                        self.store.entries@[at].msg,
                    ),
                    None => at < 0,
                }
            }),
    {
        let ghost entries = self.store.entries@;
        let ghost left_out = |id: i32| excluded@.contains(id);
        let mut end: usize = self.store.entries.len();
        assert(entries.take(entries.len() as int) =~= entries);
        while end > 0 && is_among(excluded, self.store.entries[end - 1].msg.id)
            invariant
                entries == self.store.entries@,
                end <= entries.len(),
                left_out == (|id: i32| excluded@.contains(id)),
                last_kept(entries.take(end as int), left_out) == last_kept(entries, left_out),
            decreases end,
        {
            assert(entries.take(end as int).drop_last() =~= entries.take(end - 1));
            assert(entries.take(end as int).last() == entries[end - 1]);
            end -= 1;
        }
        if end == 0 {
            assert(entries.take(0) =~= Seq::<MessageEntry>::empty());
            None
        } else {
            assert(entries.take(end as int).last() == entries[end - 1]);
            Some(self.store.entries[end - 1].msg.clone())
        }
    }

    pub fn is_last(&self, msg_id: i32) -> (answer: bool)
        ensures
            answer == (self.store.entries@.len() > 0 && self.store.entries@.last().msg.id == msg_id),
    {
        let count: usize = self.store.entries.len();
        count > 0 && self.store.entries[count - 1].msg.id == msg_id
    }

    /// Takes a message out of the list.
    pub fn remove(&mut self, msg_id: i32) -> (msg: Option<Msg>)
        requires
            old(self).well_formed(),
        ensures
            final(self).well_formed(),
            final(self).pending_messages@ == old(self).pending_messages@.remove(msg_id),
            final(self).store.chat_id == old(self).store.chat_id,
            match msg {
                Some(found) => {
                    &&& old(self).knows(msg_id)
                    &&& found == old(self).entry(msg_id).msg
                    &&& final(self).store.entries@ == old(self).store.entries@.remove(
                        place_of(old(self).store.entries@, msg_id),
                    )
                    &&& final(self).aux@ == lines_of_others(old(self).aux@, msg_id)
                },
                None => {
                    &&& !old(self).knows(msg_id)
                    &&& final(self).store.entries@ == old(self).store.entries@
                    &&& final(self).aux@ == old(self).aux@
                },
            },
            *final(self) == (MessagesView {
                store: final(self).store,
                pending_messages: final(self).pending_messages,
                aux: final(self).aux,
                ..*old(self)
            }),
    {
        broadcast use vstd::std_specs::hash::group_hash_axioms;

        self.pending_messages.remove(&msg_id);
        let msg = self.store.remove(msg_id);
        if msg.is_some() {
            drop_lines(&mut self.aux, msg_id);
        }
        msg
    }

    pub fn is_deleted(&self, msg_id: i32) -> (answer: bool)
        requires
            self.well_formed(),
        ensures
            answer == (self.knows(msg_id) && self.entry(msg_id).msg.deleted),
    {
        match self.store.position(msg_id) {
            Some(at) => self.store.entries[at].msg.deleted,
            None => false,
        }
    }

    pub fn is_monospace(&self, msg_id: i32) -> (answer: bool)
        requires
            self.well_formed(),
        ensures
            answer == (self.knows(msg_id) && self.entry(msg_id).monospace),
    {
        match self.store.position(msg_id) {
            Some(at) => self.store.entries[at].monospace,
            None => false,
        }
    }

    pub fn contains(&self, msg_id: i32) -> (answer: bool)
        requires
            self.well_formed(),
        ensures
            answer == self.knows(msg_id),
    {
        self.store.position(msg_id).is_some()
    }

    pub fn contains_text(&self, text: &str) -> (answer: bool)
        ensures
            answer == exists|i: int|
                0 <= i < self.store.entries@.len() && (#[trigger] self.store.entries@[i]).msg.text@
                    == text@,
    {
        let mut i: usize = 0;
        while i < self.store.entries.len()
            invariant
                i <= self.store.entries@.len(),
                forall|j: int|
                    0 <= j < i ==> (#[trigger] self.store.entries@[j]).msg.text@ != text@,
            decreases self.store.entries@.len() - i,
        {
            if same_text(&self.store.entries[i].msg.text, text) {
                assert(self.store.entries@[i as int].msg.text@ == text@);
                return true;
            }
            i += 1;
        }
        false
    }

    pub fn len(&self) -> (count: usize)
        ensures
            count == self.store.entries@.len(),
    {
        self.store.entries.len()
    }

    pub fn is_loading(&self) -> (answer: bool)
        ensures
            answer == (self.scroll.placeholder_visible && self.scroll.placeholder
                == Placeholder::Loading),
    {
        self.scroll.placeholder_visible && self.scroll.placeholder == Placeholder::Loading
    }

    pub fn is_empty_state(&self) -> (answer: bool)
        ensures
            answer == (self.scroll.placeholder_visible && self.scroll.placeholder
                == Placeholder::SelectChat),
    {
        self.scroll.placeholder_visible && self.scroll.placeholder == Placeholder::SelectChat
    }

    /// An own message with this text that has arrived.
    pub fn find_outgoing_text(&self, text: &str) -> (id: Option<i32>)
        ensures
            is_first(
                self.store.entries@,
                |msg: Msg|
                    msg.outgoing && msg.text@ == text@ && !self.pending_messages@.contains(msg.id),
                id,
            ),
    {
        broadcast use vstd::std_specs::hash::group_hash_axioms;

        let ghost wanted = |msg: Msg|
            msg.outgoing && msg.text@ == text@ && !self.pending_messages@.contains(msg.id);
        let ghost entries = self.store.entries@;
        let mut i: usize = 0;
        while i < self.store.entries.len()
            invariant
                entries == self.store.entries@,
                i <= entries.len(),
                wanted == (|msg: Msg|
                    msg.outgoing && msg.text@ == text@ && !self.pending_messages@.contains(msg.id)),
                forall|j: int| 0 <= j < i ==> !wanted((#[trigger] entries[j]).msg),
            decreases entries.len() - i,
        {
            let msg = &self.store.entries[i].msg;
            if msg.outgoing && same_text(&msg.text, text) && !self.pending_messages.contains(&msg.id) {
                assert(first_at(entries, wanted, i as int));
                return Some(msg.id);
            }
            i += 1;
        }
        None
    }

    /// A message of somebody else with this text behind another message.
    pub fn find_incoming_text_after(&self, text: &str, after_id: i32) -> (id: Option<i32>)
        ensures
            is_first(
                self.store.entries@,
                |msg: Msg| !msg.outgoing && msg.id > after_id && msg.text@ == text@,
                id,
            ),
    {
        let ghost wanted = |msg: Msg| !msg.outgoing && msg.id > after_id && msg.text@ == text@;
        let ghost entries = self.store.entries@;
        let mut i: usize = 0;
        while i < self.store.entries.len()
            invariant
                entries == self.store.entries@,
                i <= entries.len(),
                wanted == (|msg: Msg|
                    !msg.outgoing && msg.id > after_id && msg.text@ == text@),
                forall|j: int| 0 <= j < i ==> !wanted((#[trigger] entries[j]).msg),
            decreases entries.len() - i,
        {
            let msg = &self.store.entries[i].msg;
            if !msg.outgoing && msg.id > after_id && same_text(&msg.text, text) {
                assert(first_at(entries, wanted, i as int));
                return Some(msg.id);
            }
            i += 1;
        }
        None
    }

    /// An edited message of somebody else behind another message.
    pub fn find_edited_incoming_after(&self, after_id: i32) -> (id: Option<i32>)
        ensures
            is_first(
                self.store.entries@,
                |msg: Msg| !msg.outgoing && msg.id > after_id && msg.edited,
                id,
            ),
    {
        let ghost wanted = |msg: Msg| !msg.outgoing && msg.id > after_id && msg.edited;
        let ghost entries = self.store.entries@;
        let mut i: usize = 0;
        while i < self.store.entries.len()
            invariant
                entries == self.store.entries@,
                i <= entries.len(),
                wanted == (|msg: Msg| !msg.outgoing && msg.id > after_id && msg.edited),
                forall|j: int| 0 <= j < i ==> !wanted((#[trigger] entries[j]).msg),
            decreases entries.len() - i,
        {
            let msg = &self.store.entries[i].msg;
            if !msg.outgoing && msg.id > after_id && msg.edited {
                assert(first_at(entries, wanted, i as int));
                return Some(msg.id);
            }
            i += 1;
        }
        None
    }

    pub fn media_state(&self, msg_id: i32) -> (state: Option<&MediaState>)
        requires
            self.well_formed(),
        ensures
            match state {
                Some(found) => self.knows(msg_id) && *found == self.entry(msg_id).media_state,
                None => !self.knows(msg_id),
            },
    {
        match self.store.position(msg_id) {
            Some(at) => Some(&self.store.entries[at].media_state),
            None => None,
        }
    }

    pub fn media_kind(&self, msg_id: i32) -> (kind: Option<MediaKind>)
        requires
            self.well_formed(),
        ensures
            kind == (if self.knows(msg_id) { self.entry(msg_id).msg.media } else { None }),
    {
        match self.store.position(msg_id) {
            Some(at) => self.store.entries[at].msg.media,
            None => None,
        }
    }

    /// Looks whether any id occurs twice, whatever the list holds. In a list that is
    /// kept by the operations of this library none does.
    pub fn ids_unique(&self) -> (unique: bool)
        ensures
            unique == self.store.order().no_duplicates(),
            self.well_formed() ==> unique,
    {
        broadcast use vstd::std_specs::hash::group_hash_axioms;

        let ghost order = self.store.order();
        let mut seen: HashSet<i32> = HashSet::new();
        let mut i: usize = 0;
        while i < self.store.entries.len()
            invariant
                i <= self.store.entries@.len(),
                order == self.store.order(),
                forall|id: i32| #[trigger]
                    seen@.contains(id) <==> exists|j: int| 0 <= j < i && #[trigger] order[j] == id,
                forall|j: int, k: int| 0 <= j < k < i ==> #[trigger] order[j] != #[trigger] order[k],
            decreases self.store.entries@.len() - i,
        {
            broadcast use vstd::std_specs::hash::group_hash_axioms;

            let id: i32 = self.store.entries[i].msg.id;
            assert(order[i as int] == id);
            let ghost before = seen@;
            if !seen.insert(id) {
                proof {
                    assert(before.contains(id));
                    let j = choose|j: int| 0 <= j < i && #[trigger] order[j] == id;
                    assert(order[j] == order[i as int]);
                    assert(!order.no_duplicates());
                }
                assert(self.well_formed() ==> order.no_duplicates()) by {
                    lemma_ascending_ids(*self);
                }
                return false;
            }
            proof {
                assert(!before.contains(id));
                assert forall|other: i32| #[trigger] seen@.contains(other) <==> exists|j: int|
                    0 <= j < i + 1 && #[trigger] order[j] == other by {
                    if before.contains(other) {
                        let j = choose|j: int| 0 <= j < i && #[trigger] order[j] == other;
                        assert(0 <= j < i + 1 && order[j] == other);
                    }
                    if other == id {
                        assert(order[i as int] == other);
                    }
                }
            }
            i += 1;
        }
        true
    }

    /// What the row of the message at `at` shows.
    pub fn row(&self, at: usize) -> (plan: RowPlan)
        requires
            at < self.store.entries@.len(),
        ensures
            ({
                let msg = self.store.entries@[at as int].msg;
                exists|settings: RowSettings| #[trigger]
                    plan.shows(msg, settings) && settings.kind == self.header.kind
                        && settings.ai_enabled == self.ai_enabled && settings.time_format@
                        == self.time_format@ && settings.pending == self.pending_messages@.contains(
                        msg.id,
                    ) && settings.read_outbox == self.read_outbox
            }),
    {
        broadcast use vstd::std_specs::hash::group_hash_axioms;

        let msg = &self.store.entries[at].msg;
        let settings = RowSettings {
            kind: self.header.kind,
            ai_enabled: self.ai_enabled,
            time_format: self.time_format.as_str(),
            pending: self.pending_messages.contains(&msg.id),
            read_outbox: self.read_outbox,
        };
        let plan = build_row(msg, &settings);
        assert(plan.shows(*msg, settings));
        plan
    }

    /// Where all rows stand.
    pub fn placements(&self) -> (rows: Vec<Placement>)
        ensures
            rows@.len() == self.store.entries@.len(),
            forall|i: int|
                0 <= i < rows@.len() ==> #[trigger] rows@[i] == placement_at(
                    self.header.kind,
                    self.store.entries@,
                    i,
                ),
    {
        reorder_rows(self.header.kind, &self.store.entries)
    }

    /// Whether some row shows the name of its sender.
    pub fn has_sender_name(&self) -> (answer: bool)
        ensures
            answer == exists|i: int|
                0 <= i < self.store.entries@.len() && (#[trigger] placement_at(
                    self.header.kind,
                    self.store.entries@,
                    i,
                )).sender_visible,
    {
        let rows = self.placements();
        let mut i: usize = 0;
        while i < rows.len()
            invariant
                i <= rows@.len(),
                rows@.len() == self.store.entries@.len(),
                forall|j: int|
                    0 <= j < rows@.len() ==> #[trigger] rows@[j] == placement_at(
                        self.header.kind,
                        self.store.entries@,
                        j,
                    ),
                forall|j: int|
                    0 <= j < i ==> !(#[trigger] placement_at(
                        self.header.kind,
                        self.store.entries@,
                        j,
                    )).sender_visible,
            decreases rows@.len() - i,
        {
            assert(rows@[i as int] == placement_at(self.header.kind, self.store.entries@, i as int));
            if rows[i].sender_visible {
                return true;
            }
            i += 1;
        }
        false
    }

    /// What stands below the newest message.
    pub fn last_time_label(&self) -> (label: Option<String>)
        ensures
            match label {
                Some(text) => self.store.entries@.len() > 0 && text@ == time_label_text(
                    self.store.entries@.last().msg.ts,
                    self.store.entries@.last().msg.edited,
                    self.time_format@,
                ),
                None => self.store.entries@.len() == 0,
            },
    {
        let count: usize = self.store.entries.len();
        if count == 0 {
            return None;
        }
        let msg = &self.store.entries[count - 1].msg;
        Some(time_label(msg.ts, msg.edited, &self.time_format))
    }

    /// The menu of a message, unless the message is on its way or not in the list.
    pub fn context_menu(&self, msg_id: i32, virtual_chat: bool) -> (items: Option<Vec<ContextItem>>)
        requires
            self.well_formed(),
        ensures
            items is Some <==> self.knows(msg_id) && !self.pending_messages@.contains(msg_id),
            items matches Some(found) ==> found@ == context_items(
                self.entry(msg_id).msg,
                virtual_chat,
                self.edit_history,
                self.ai_enabled,
            ),
    {
        broadcast use vstd::std_specs::hash::group_hash_axioms;

        if self.pending_messages.contains(&msg_id) {
            return None;
        }
        match self.store.position(msg_id) {
            Some(at) => Some(
                context_menu(
                    &self.store.entries[at].msg,
                    virtual_chat,
                    self.edit_history,
                    self.ai_enabled,
                ),
            ),
            None => None,
        }
    }

    /// The menu of the header, where the chat is known.
    pub fn header_menu(&self) -> (items: Option<Vec<MenuItem>>)
        ensures
            match (items, self.header.summary) {
                (Some(found), Some(summary)) => item_models(found@) == header_items(
                    summary.muted,
                    summary.pinned,
                ),
                (None, None) => true,
                _ => false,
            },
    {
        match &self.header.summary {
            Some(summary) => Some(header_menu(summary.muted, summary.pinned)),
            None => None,
        }
    }

    pub fn clear_history_probe(&mut self)
        ensures
            *final(self) == (MessagesView {
                history_version_count: 0,
                history_current_text: None,
                ..*old(self)
            }),
    {
        self.history_version_count = 0;
        self.history_current_text = None;
    }

    /// Shows the earlier texts of a message, and the current one behind them. Where
    /// there are no earlier ones, nothing is listed. A deleted message has no
    /// history.
    pub fn show_edit_history(&mut self, msg_id: i32, versions: &Vec<MsgVersion>) -> (lines: Option<
        Vec<HistoryLine>,
    >)
        requires
            old(self).well_formed(),
        ensures
            final(self).well_formed(),
            lines is Some <==> old(self).knows(msg_id) && !old(self).entry(msg_id).msg.deleted,
            lines is None ==> final(self).history_version_count == old(self).history_version_count
                && final(self).history_current_text == old(self).history_current_text,
            lines matches Some(shown) ==> {
                &&& final(self).history_version_count == versions@.len()
                &&& if versions@.len() == 0 {
                    shown@.len() == 0 && final(self).history_current_text is None
                } else {
                    &&& shown@.len() == versions@.len() + 1
                    &&& forall|i: int|
                        0 <= i < versions@.len() ==> (#[trigger] shown@[i]).time@ == time_text(
                            versions@[i].replaced_at,
                            old(self).time_format@,
                        ) && shown@[i].text@ == versions@[i].text@
                    &&& shown@.last().time@ == "current"@
                    &&& shown@.last().text@ == old(self).entry(msg_id).msg.text@
                    &&& final(self).history_current_text == Some(old(self).entry(msg_id).msg.text)
                }
            },
            *final(self) == (MessagesView {
                history_version_count: final(self).history_version_count,
                history_current_text: final(self).history_current_text,
                ..*old(self)
            }),
    {
        let at: usize = match self.store.position(msg_id) {
            Some(at) => at,
            None => {
                return None;
            },
        };
        if self.store.entries[at].msg.deleted {
            return None;
        }
        let current = self.store.entries[at].msg.text.clone();
        let shown = history_lines(versions, &self.time_format, &current);
        self.history_version_count = versions.len();
        self.history_current_text = if versions.len() == 0 { None } else { Some(current) };
        Some(shown)
    }

    pub fn history_version_count(&self) -> (count: usize)
        ensures
            count == self.history_version_count,
    {
        self.history_version_count
    }

    pub fn history_current_text(&self) -> (text: Option<String>)
        ensures
            text == self.history_current_text,
    {
        crate::tg::copy_option(&self.history_current_text)
    }

    pub fn initial_render_count(&self) -> (count: u64)
        ensures
            count == self.initial_render_count,
    {
        self.initial_render_count
    }
}

fn history_lines(versions: &Vec<MsgVersion>, format: &str, current: &str) -> (shown: Vec<HistoryLine>)
    ensures
        versions@.len() == 0 ==> shown@.len() == 0,
        versions@.len() > 0 ==> {
            &&& shown@.len() == versions@.len() + 1
            &&& forall|i: int|
                0 <= i < versions@.len() ==> (#[trigger] shown@[i]).time@ == time_text(
                    versions@[i].replaced_at,
                    format@,
                ) && shown@[i].text@ == versions@[i].text@
            &&& shown@.last().time@ == "current"@
            &&& shown@.last().text@ == current@
        },
{
    let mut shown: Vec<HistoryLine> = Vec::new();
    if versions.len() == 0 {
        return shown;
    }
    let mut i: usize = 0;
    while i < versions.len()
        invariant
            i <= versions@.len(),
            shown@.len() == i,
            forall|j: int|
                0 <= j < i ==> (#[trigger] shown@[j]).time@ == time_text(
                    versions@[j].replaced_at,
                    format@,
                ) && shown@[j].text@ == versions@[j].text@,
        decreases versions@.len() - i,
    {
        shown.push(
            HistoryLine {
                time: format_time(versions[i].replaced_at, format),
                text: versions[i].text.clone(),
            },
        );
        i += 1;
    }
    shown.push(HistoryLine { time: "current".to_owned(), text: current.to_owned() });
    shown
}

fn is_among(ids: &[i32], id: i32) -> (found: bool)
    ensures
        found == ids@.contains(id),
{
    let mut i: usize = 0;
    while i < ids.len()
        invariant
            i <= ids@.len(),
            forall|j: int| 0 <= j < i ==> ids@[j] != id,
        decreases ids@.len() - i,
    {
        if ids[i] == id {
            return true;
        }
        i += 1;
    }
    false
}

proof fn lemma_same_last(
    entries: Seq<MessageEntry>,
    left: spec_fn(i32) -> bool,
    right: spec_fn(i32) -> bool,
)
    requires
        forall|id: i32| #[trigger] left(id) == right(id),
    ensures
        last_kept(entries, left) == last_kept(entries, right),
    decreases entries.len(),
{
    if entries.len() > 0 {
        lemma_same_last(entries.drop_last(), left, right);
        assert(left(entries.last().msg.id) == right(entries.last().msg.id));
    }
}

/// A deleted message cannot be acted upon: its text can be copied, and that is all.
pub proof fn law_deleted_messages_are_only_copied(
    msg: Msg,
    virtual_chat: bool,
    edit_history: bool,
    ai_enabled: bool,
)
    requires
        msg.deleted,
    ensures
        context_items(msg, virtual_chat, edit_history, ai_enabled) == seq![ContextItem::Copy],
{
}

/// Only own messages can be edited or deleted.
pub proof fn law_only_own_messages_are_changed(
    msg: Msg,
    virtual_chat: bool,
    edit_history: bool,
    ai_enabled: bool,
)
    requires
        !msg.outgoing,
    ensures
        !context_items(msg, virtual_chat, edit_history, ai_enabled).contains(ContextItem::Edit),
        !context_items(msg, virtual_chat, edit_history, ai_enabled).contains(ContextItem::Delete),
{
    let items = context_items(msg, virtual_chat, edit_history, ai_enabled);
    assert forall|i: int| 0 <= i < items.len() implies items[i] != ContextItem::Edit && items[i]
        != ContextItem::Delete by {}
}

} // verus!
