//! Loading the history of a chat page by page, and bringing in new messages.

use vstd::prelude::*;

use crate::messages::composer::{known_name, reply_label, reply_text, shortened, snippet, Composer};
use crate::messages::store::{edited_ids, holds, law_merge, new_ids, with_messages, MessageEntry};
use crate::messages::view::{MessagesView, Notice, Placeholder, Quote, Scroll};
use crate::tg::Msg;

verus! {

/// What is quoted of a message: the list is asked first, then what was fetched for
/// quotes.
pub open spec fn quoted(view: MessagesView, id: i32) -> Option<(Seq<char>, Seq<char>)> {
    if view.knows(id) {
        Some((view.entry(id).msg.sender@, view.entry(id).msg.text@))
    } else if view.quote_cache@.contains_key(id) {
        Some((view.quote_cache@[id].sender@, view.quote_cache@[id].text@))
    } else {
        None
    }
}

/// What stands above a reply.
pub open spec fn quote_text(view: MessagesView, reply_to: i32) -> Seq<char> {
    match quoted(view, reply_to) {
        Some((sender, text)) => known_name(sender) + ": "@ + shortened(text, 60),
        None => "replied message"@,
    }
}

/// The composer once it is known what is replied to.
pub open spec fn reply_bar_refreshed(view: MessagesView, composer: Composer) -> bool {
    match view.composer.reply_to {
        Some(reply_to) => match quoted(view, reply_to) {
            Some((sender, text)) => {
                &&& composer.reply_label@ == reply_text(sender, text)
                &&& composer == (Composer {
                    reply_label: composer.reply_label,
                    reply_bar: true,
                    ..view.composer
                })
            },
            None => composer == view.composer,
        },
        None => composer == view.composer,
    }
}

/// Whether a message of the list replies to `id`.
pub open spec fn replied_to(entries: Seq<MessageEntry>, id: i32) -> bool {
    exists|i: int| 0 <= i < entries.len() && (#[trigger] entries[i]).msg.reply_to == Some(id)
}

/// Whether numbers rise from place to place.
pub open spec fn rising(ids: Seq<i32>) -> bool {
    forall|i: int, j: int| 0 <= i < j < ids.len() ==> #[trigger] ids[i] < #[trigger] ids[j]
}

/// Puts a number where it belongs, unless it is there.
fn insert_rising(ids: &mut Vec<i32>, id: i32)
    requires
        rising(old(ids)@),
    ensures
        rising(final(ids)@),
        forall|x: i32| #[trigger] final(ids)@.contains(x) <==> old(ids)@.contains(x) || x == id,
{
    let mut at: usize = 0;
    while at < ids.len() && ids[at] < id
        invariant
            at <= ids@.len(),
            ids@ == old(ids)@,
            forall|j: int| 0 <= j < at ==> #[trigger] ids@[j] < id,
        decreases ids@.len() - at,
    {
        at += 1;
    }
    if at < ids.len() && ids[at] == id {
        assert(ids@.contains(id));
        return;
    }
    let ghost before = ids@;
    ids.insert(at, id);
    assert forall|i: int, j: int| 0 <= i < j < ids@.len() implies #[trigger] ids@[i] < #[trigger] ids@[j] by {
        let a = if i < at { before[i] } else if i == at { id } else { before[i - 1] };
        let b = if j < at { before[j] } else if j == at { id } else { before[j - 1] };
        assert(ids@[i] == a && ids@[j] == b);
        if at < before.len() {
            assert(before[at as int] > id);
        }
    }
    assert forall|x: i32| #[trigger] ids@.contains(x) <==> before.contains(x) || x == id by {
        if ids@.contains(x) && x != id {
            let p = ids@.index_of(x);
            assert(before[if p < at { p } else { p - 1 }] == x);
        }
        if before.contains(x) {
            let p = before.index_of(x);
            assert(ids@[if p < at { p } else { p + 1 }] == x);
        }
        assert(ids@[at as int] == id);
    }
}

/// Whether a new message moves the list to its end: it does where the list is there,
/// and shows the latest messages.
pub open spec fn sticks(scroll: Scroll) -> bool {
    scroll.stick_to_bottom && !scroll.detached
}

/// Whether a line is drawn above a new message: above the first one that comes in
/// while the list does not follow.
pub open spec fn divides(scroll: Scroll, outgoing: bool, divider_on: bool) -> bool {
    !outgoing && !sticks(scroll) && divider_on && !scroll.unread_divider_shown
}

/// Where the list stands after a new message.
pub open spec fn scroll_after_event(
    scroll: Scroll,
    outgoing: bool,
    divider_on: bool,
    inserted: bool,
) -> Scroll {
    let aside = !outgoing && !sticks(scroll);
    Scroll {
        suppress_paging: scroll.suppress_paging || sticks(scroll),
        unread_divider_shown: scroll.unread_divider_shown || (aside && divider_on),
        bottom_unread: if aside && inserted && scroll.bottom_unread < u32::MAX {
            (scroll.bottom_unread + 1) as u32
        } else {
            scroll.bottom_unread
        },
        bottom_badge: scroll.bottom_badge || (aside && inserted),
        ..scroll
    }
}

fn after_event(scroll: Scroll, outgoing: bool, divider_on: bool, inserted: bool) -> (after: Scroll)
    ensures
        after == scroll_after_event(scroll, outgoing, divider_on, inserted),
{
    let should_stick = scroll.stick_to_bottom && !scroll.detached;
    let aside = !outgoing && !should_stick;
    Scroll {
        suppress_paging: scroll.suppress_paging || should_stick,
        unread_divider_shown: scroll.unread_divider_shown || (aside && divider_on),
        bottom_unread: if aside && inserted {
            scroll.bottom_unread.saturating_add(1)
        } else {
            scroll.bottom_unread
        },
        bottom_badge: scroll.bottom_badge || (aside && inserted),
        ..scroll
    }
}

impl MessagesView {
    /// Brings messages into the list. Messages of another chat are left out. Returns
    /// the ids that were not known before.
    pub fn merge(&mut self, messages: Vec<Msg>) -> (inserted: Vec<i32>)
        requires
            old(self).well_formed(),
        ensures
            final(self).well_formed(),
            final(self).store.chat_id == old(self).store.chat_id,
            final(self).store.entries@ == with_messages(
                old(self).store.chat_id,
                old(self).store.entries@,
                messages@,
                messages@.len() as int,
            ),
            inserted@ == new_ids(
                old(self).store.chat_id,
                old(self).store.entries@,
                messages@,
                messages@.len() as int,
            ),
            final(self).edited_now@ == edited_ids(
                old(self).store.chat_id,
                old(self).store.entries@,
                messages@,
                messages@.len() as int,
            ),
            *final(self) == (MessagesView {
                store: final(self).store,
                edited_now: final(self).edited_now,
                ..*old(self)
            }),
    {
        let ghost chat_id = self.store.chat_id;
        let ghost entries = self.store.entries@;
        let ghost all = messages@;
        let mut inserted: Vec<i32> = Vec::new();
        self.edited_now = Vec::new();
        for msg in it: messages
            invariant
                it.seq() == all,
                self.well_formed(),
                self.store.chat_id == chat_id,
                chat_id == old(self).store.chat_id,
                self.store.entries@ == with_messages(chat_id, entries, all, it.index() as int),
                inserted@ == new_ids(chat_id, entries, all, it.index() as int),
                self.edited_now@ == edited_ids(chat_id, entries, all, it.index() as int),
                *self == (MessagesView {
                    store: self.store,
                    edited_now: self.edited_now,
                    ..*old(self)
                }),
        {
            if self.store.chat_id == Some(msg.chat_id) {
                let id = msg.id;
                let (is_new, edited) = self.store.merge_one(msg);
                if is_new {
                    inserted.push(id);
                }
                if edited {
                    self.edited_now.push(id);
                }
            }
        }
        inserted
    }

    /// Shows the first page.
    pub fn finish_initial(&mut self, messages: Vec<Msg>) -> (inserted: Vec<i32>)
        requires
            old(self).well_formed(),
        ensures
            final(self).well_formed(),
            final(self).store.chat_id == old(self).store.chat_id,
            final(self).store.entries@ == with_messages(
                old(self).store.chat_id,
                old(self).store.entries@,
                messages@,
                messages@.len() as int,
            ),
            inserted@ == new_ids(
                old(self).store.chat_id,
                old(self).store.entries@,
                messages@,
                messages@.len() as int,
            ),
            final(self).edited_now@ == edited_ids(
                old(self).store.chat_id,
                old(self).store.entries@,
                messages@,
                messages@.len() as int,
            ),
            final(self).initial_render_count == old(self).initial_render_count.wrapping_add(1),
            final(self).scroll == (Scroll {
                spinner: false,
                placeholder: if final(self).store.entries@.len() == 0 {
                    Placeholder::NoMessages
                } else {
                    old(self).scroll.placeholder
                },
                placeholder_visible: final(self).store.entries@.len() == 0,
                empty_effects: false,
                ..old(self).scroll
            }),
            reply_bar_refreshed(
                (MessagesView { store: final(self).store, ..*old(self) }),
                final(self).composer,
            ),
            *final(self) == (MessagesView {
                store: final(self).store,
                edited_now: final(self).edited_now,
                scroll: final(self).scroll,
                composer: final(self).composer,
                initial_render_count: final(self).initial_render_count,
                ..*old(self)
            }),
    {
        self.initial_render_count = self.initial_render_count.wrapping_add(1);
        let inserted = self.merge(messages);
        self.refresh_reply_bar();
        let empty = self.store.entries.len() == 0;
        let before = self.scroll;
        self.scroll = Scroll {
            spinner: false,
            placeholder: if empty { Placeholder::NoMessages } else { before.placeholder },
            placeholder_visible: empty,
            empty_effects: false,
            ..before
        };
        inserted
    }

    /// Once the list has its new height: paging may go on. A list that was at its
    /// end stays there. Another opening of the chat makes this void.
    pub fn list_settled(&mut self, epoch: u64, at_bottom: bool) -> (current: bool)
        ensures
            current == (old(self).scroll.epoch == epoch),
            current ==> final(self).scroll == (Scroll {
                suppress_paging: false,
                stick_to_bottom: at_bottom || old(self).scroll.stick_to_bottom,
                ..old(self).scroll
            }),
            !current ==> final(self).scroll == old(self).scroll,
            *final(self) == (MessagesView { scroll: final(self).scroll, ..*old(self) }),
    {
        let before = self.scroll;
        let current = before.epoch == epoch;
        self.scroll = if current {
            let stick_to_bottom = at_bottom || before.stick_to_bottom;
            Scroll { suppress_paging: false, stick_to_bottom, ..before }
        } else {
            before
        };
        current
    }

    /// Brings in a new message. Where the list does not follow it, an incoming one
    /// is counted on the button that leads there.
    pub fn merge_event(&mut self, message: Msg, divider_on: bool) -> (inserted: Vec<i32>)
        requires
            old(self).well_formed(),
        ensures
            final(self).well_formed(),
            final(self).store.chat_id == old(self).store.chat_id,
            final(self).store.entries@ == with_messages(
                old(self).store.chat_id,
                old(self).store.entries@,
                seq![message],
                1,
            ),
            inserted@ == new_ids(
                old(self).store.chat_id,
                old(self).store.entries@,
                seq![message],
                1,
            ),
            final(self).edited_now@ == edited_ids(
                old(self).store.chat_id,
                old(self).store.entries@,
                seq![message],
                1,
            ),
            final(self).scroll == scroll_after_event(
                old(self).scroll,
                message.outgoing,
                divider_on,
                inserted@.len() > 0,
            ),
            final(self).divider == (if divides(old(self).scroll, message.outgoing, divider_on)
                && inserted@.len() > 0 {
                Some(message.id)
            } else {
                old(self).divider
            }),
            *final(self) == (MessagesView {
                store: final(self).store,
                edited_now: final(self).edited_now,
                scroll: final(self).scroll,
                divider: final(self).divider,
                ..*old(self)
            }),
    {
        let before = self.scroll;
        let outgoing = message.outgoing;
        let divided = !outgoing && !(before.stick_to_bottom && !before.detached) && divider_on
            && !before.unread_divider_shown;
        let id = message.id;
        let mut messages: Vec<Msg> = Vec::new();
        messages.push(message);
        assert(messages@ =~= seq![message]);
        let inserted = self.merge(messages);
        let divider = self.divider;
        self.divider = if divided && inserted.len() > 0 { Some(id) } else { divider };
        self.scroll = after_event(before, outgoing, divider_on, inserted.len() > 0);
        inserted
    }

    /// Brings in an own message that is still on its way.
    pub fn merge_pending(&mut self, message: Msg, divider_on: bool) -> (inserted: Vec<i32>)
        requires
            old(self).well_formed(),
        ensures
            final(self).well_formed(),
            final(self).pending_messages@ == old(self).pending_messages@.insert(message.id),
            final(self).store.chat_id == old(self).store.chat_id,
            final(self).store.entries@ == with_messages(
                old(self).store.chat_id,
                old(self).store.entries@,
                seq![message],
                1,
            ),
            inserted@ == new_ids(
                old(self).store.chat_id,
                old(self).store.entries@,
                seq![message],
                1,
            ),
            final(self).edited_now@ == edited_ids(
                old(self).store.chat_id,
                old(self).store.entries@,
                seq![message],
                1,
            ),
            final(self).scroll == scroll_after_event(
                old(self).scroll,
                message.outgoing,
                divider_on,
                inserted@.len() > 0,
            ),
            final(self).divider == (if divides(old(self).scroll, message.outgoing, divider_on)
                && inserted@.len() > 0 {
                Some(message.id)
            } else {
                old(self).divider
            }),
            *final(self) == (MessagesView {
                store: final(self).store,
                edited_now: final(self).edited_now,
                scroll: final(self).scroll,
                divider: final(self).divider,
                pending_messages: final(self).pending_messages,
                ..*old(self)
            }),
    {
        broadcast use vstd::std_specs::hash::group_hash_axioms;

        self.pending_messages.insert(message.id);
        self.merge_event(message, divider_on)
    }

    /// Begins to load an older page, and says before which message.
    pub fn begin_page(&mut self) -> (oldest: Option<i32>)
        requires
            old(self).well_formed(),
        ensures
            oldest == (if old(self).scroll.placeholder_visible || old(self).scroll.paging
                || old(self).scroll.exhausted || old(self).scroll.suppress_paging
                || old(self).store.entries@.len() == 0 {
                None
            } else {
                Some(old(self).store.entries@[0].msg.id)
            }),
            final(self).scroll == (if oldest is Some {
                Scroll { paging: true, spinner: true, ..old(self).scroll }
            } else {
                old(self).scroll
            }),
            *final(self) == (MessagesView { scroll: final(self).scroll, ..*old(self) }),
    {
        let before = self.scroll;
        if before.placeholder_visible || before.paging || before.exhausted || before.suppress_paging {
            return None;
        }
        if self.store.entries.len() == 0 {
            return None;
        }
        let oldest = self.store.entries[0].msg.id;
        self.scroll = Scroll { paging: true, spinner: true, ..before };
        Some(oldest)
    }

    /// Shows an older page. One that brings nothing new is the last.
    pub fn finish_page(&mut self, messages: Vec<Msg>) -> (inserted: Vec<i32>)
        requires
            old(self).well_formed(),
        ensures
            final(self).well_formed(),
            final(self).store.chat_id == old(self).store.chat_id,
            final(self).store.entries@ == with_messages(
                old(self).store.chat_id,
                old(self).store.entries@,
                messages@,
                messages@.len() as int,
            ),
            inserted@ == new_ids(
                old(self).store.chat_id,
                old(self).store.entries@,
                messages@,
                messages@.len() as int,
            ),
            final(self).edited_now@ == edited_ids(
                old(self).store.chat_id,
                old(self).store.entries@,
                messages@,
                messages@.len() as int,
            ),
            final(self).scroll == (Scroll {
                paging: false,
                spinner: false,
                exhausted: old(self).scroll.exhausted || inserted@.len() == 0,
                suppress_paging: inserted@.len() > 0,
                ..old(self).scroll
            }),
            *final(self) == (MessagesView {
                store: final(self).store,
                edited_now: final(self).edited_now,
                scroll: final(self).scroll,
                ..*old(self)
            }),
    {
        let inserted = self.merge(messages);
        let before = self.scroll;
        let nothing = inserted.len() == 0;
        self.scroll = Scroll {
            paging: false,
            spinner: false,
            exhausted: before.exhausted || nothing,
            suppress_paging: !nothing,
            ..before
        };
        inserted
    }

    pub fn fail_page(&mut self, message: &str)
        ensures
            final(self).scroll == (Scroll { paging: false, spinner: false, ..old(self).scroll }),
            final(self).notice.error@ == message@,
            final(self).notice == (Notice {
                error: final(self).notice.error,
                visible: true,
                ..old(self).notice
            }),
            *final(self) == (MessagesView {
                scroll: final(self).scroll,
                notice: final(self).notice,
                ..*old(self)
            }),
    {
        let before = self.scroll;
        self.scroll = Scroll { paging: false, spinner: false, ..before };
        self.show_error(message);
    }

    pub fn fail_initial(&mut self, message: &str)
        ensures
            final(self).scroll == (Scroll {
                placeholder_visible: false,
                spinner: false,
                suppress_paging: false,
                ..old(self).scroll
            }),
            final(self).notice.error@ == message@,
            final(self).notice == (Notice {
                error: final(self).notice.error,
                visible: true,
                ..old(self).notice
            }),
            *final(self) == (MessagesView {
                scroll: final(self).scroll,
                notice: final(self).notice,
                ..*old(self)
            }),
    {
        let before = self.scroll;
        self.scroll = Scroll {
            placeholder_visible: false,
            spinner: false,
            suppress_paging: false,
            ..before
        };
        self.show_error(message);
    }

    /// The user scrolled. `at_bottom` says that the end of the list is in view,
    /// `far` that it is more than a page away, `at_top` that the beginning is in
    /// view. Says whether an older page is to be loaded.
    pub fn scrolled(&mut self, at_bottom: bool, far: bool, at_top: bool) -> (paginate: bool)
        ensures
            paginate == (!old(self).scroll.suppress_paging && at_top && !old(self).scroll.paging
                && !old(self).scroll.exhausted),
            final(self).scroll == (if old(self).scroll.suppress_paging {
                old(self).scroll
            } else {
                Scroll {
                    stick_to_bottom: at_bottom,
                    bottom_unread: if at_bottom { 0 } else { old(self).scroll.bottom_unread },
                    bottom_badge: !at_bottom && old(self).scroll.bottom_badge,
                    bottom_button: old(self).scroll.detached || far,
                    ..old(self).scroll
                }
            }),
            *final(self) == (MessagesView { scroll: final(self).scroll, ..*old(self) }),
    {
        let before = self.scroll;
        if before.suppress_paging {
            return false;
        }
        self.scroll = Scroll {
            stick_to_bottom: at_bottom,
            bottom_unread: if at_bottom { 0 } else { before.bottom_unread },
            bottom_badge: !at_bottom && before.bottom_badge,
            bottom_button: before.detached || far,
            ..before
        };
        at_top && !before.paging && !before.exhausted
    }

    pub fn pagination_ready(&self) -> (ready: bool)
        ensures
            ready == (!self.scroll.placeholder_visible && !self.scroll.paging
                && !self.scroll.suppress_paging),
    {
        !self.scroll.placeholder_visible && !self.scroll.paging && !self.scroll.suppress_paging
    }

    pub fn show_error(&mut self, message: &str)
        ensures
            final(self).notice.error@ == message@,
            final(self).notice == (Notice {
                error: final(self).notice.error,
                visible: true,
                ..old(self).notice
            }),
            *final(self) == (MessagesView { notice: final(self).notice, ..*old(self) }),
    {
        self.notice.error = message.to_owned();
        self.notice.visible = true;
    }

    /// What is quoted of a message.
    fn quote(&self, id: i32) -> (found: Option<(&str, &str)>)
        requires
            self.well_formed(),
        ensures
            match found {
                Some((sender, text)) => quoted(*self, id) == Some((sender@, text@)),
                None => quoted(*self, id) is None,
            },
    {
        broadcast use vstd::std_specs::hash::group_hash_axioms;

        match self.store.position(id) {
            Some(at) => {
                let msg = &self.store.entries[at].msg;
                Some((msg.sender.as_str(), msg.text.as_str()))
            },
            None => match self.quote_cache.get(&id) {
                Some(quote) => Some((quote.sender.as_str(), quote.text.as_str())),
                None => None,
            },
        }
    }

    /// What stands above the message at `at`, where it is a reply.
    pub fn quote_label(&self, at: usize) -> (label: Option<String>)
        requires
            self.well_formed(),
            at < self.store.entries@.len(),
        ensures
            match (label, self.store.entries@[at as int].msg.reply_to) {
                (Some(text), Some(reply_to)) => text@ == quote_text(*self, reply_to),
                (None, None) => true,
                _ => false,
            },
    {
        match self.store.entries[at].msg.reply_to {
            Some(reply_to) => match self.quote(reply_to) {
                Some((sender, text)) => {
                    let mut label = String::new();
                    if sender.is_empty() {
                        label.push_str("Unknown");
                    } else {
                        label.push_str(sender);
                    }
                    label.push_str(": ");
                    let short = snippet(text, 60);
                    label.push_str(&short);
                    assert(label@ =~= known_name(sender@) + ": "@ + shortened(text@, 60));
                    Some(label)
                },
                None => Some("replied message".to_owned()),
            },
            None => None,
        }
    }

    /// The messages that are replied to and not known yet, in order.
    pub fn missing_reply_ids(&self) -> (missing: Vec<i32>)
        requires
            self.well_formed(),
        ensures
            rising(missing@),
            forall|id: i32| #[trigger]
                missing@.contains(id) <==> replied_to(self.store.entries@, id) && quoted(*self, id) is None,
    {
        let mut missing: Vec<i32> = Vec::new();
        let ghost entries = self.store.entries@;
        let mut i: usize = 0;
        while i < self.store.entries.len()
            invariant
                self.well_formed(),
                entries == self.store.entries@,
                i <= entries.len(),
                rising(missing@),
                forall|id: i32| #[trigger]
                    missing@.contains(id) <==> replied_to(entries.take(i as int), id) && quoted(
                        *self,
                        id,
                    ) is None,
            decreases entries.len() - i,
        {
            let ghost before = missing@;
            let reply_to = self.store.entries[i].msg.reply_to;
            let mut added = false;
            if let Some(id) = reply_to {
                if self.quote(id).is_none() {
                    insert_rising(&mut missing, id);
                    added = true;
                }
            }
            assert forall|id: i32| #[trigger]
                missing@.contains(id) <==> replied_to(entries.take(i + 1), id) && quoted(
                    *self,
                    id,
                ) is None by {
                let start = entries.take(i as int);
                let now = entries.take(i + 1);
                if replied_to(start, id) {
                    let j = choose|j: int|
                        0 <= j < start.len() && (#[trigger] start[j]).msg.reply_to == Some(id);
                    assert(now[j].msg.reply_to == Some(id));
                }
                if replied_to(now, id) {
                    let j = choose|j: int|
                        0 <= j < now.len() && (#[trigger] now[j]).msg.reply_to == Some(id);
                    if j < i {
                        assert(start[j].msg.reply_to == Some(id));
                    }
                }
                assert(now[i as int] == entries[i as int]);
                assert(before.contains(id) <==> replied_to(start, id) && quoted(*self, id) is None);
            }
            i += 1;
        }
        assert(entries.take(i as int) =~= entries);
        missing
    }

    /// The reply bar shows what is replied to, once that is known.
    pub fn refresh_reply_bar(&mut self)
        requires
            old(self).well_formed(),
        ensures
            reply_bar_refreshed(*old(self), final(self).composer),
            *final(self) == (MessagesView { composer: final(self).composer, ..*old(self) }),
    {
        if let Some(reply_to) = self.composer.reply_to {
            let label = match self.quote(reply_to) {
                Some((sender, text)) => Some(reply_label(sender, text)),
                None => None,
            };
            if let Some(label) = label {
                self.composer.reply_label = label;
                self.composer.reply_bar = true;
            }
        }
    }

    /// Takes in messages that were fetched because they are replied to.
    pub fn fill_quote_messages(&mut self, messages: Vec<Msg>)
        requires
            old(self).well_formed(),
        ensures
            final(self).well_formed(),
            forall|id: i32| #[trigger]
                final(self).quote_cache@.contains_key(id) <==> old(self).quote_cache@.contains_key(id)
                    || exists|i: int| 0 <= i < messages@.len() && (#[trigger] messages@[i]).id == id,
            forall|id: i32|
                #![trigger final(self).quote_cache@[id]]
                old(self).quote_cache@.contains_key(id) && (forall|i: int|
                    0 <= i < messages@.len() ==> (#[trigger] messages@[i]).id != id)
                    ==> final(self).quote_cache@[id] == old(self).quote_cache@[id],
            forall|i: int|
                0 <= i < messages@.len() && (forall|j: int|
                    i < j < messages@.len() ==> (#[trigger] messages@[j]).id != messages@[i].id) ==> {
                    &&& final(self).quote_cache@[(#[trigger] messages@[i]).id].sender
                        == messages@[i].sender
                    &&& final(self).quote_cache@[messages@[i].id].text == messages@[i].text
                },
            reply_bar_refreshed(
                (MessagesView { quote_cache: final(self).quote_cache, ..*old(self) }),
                final(self).composer,
            ),
            *final(self) == (MessagesView {
                quote_cache: final(self).quote_cache,
                composer: final(self).composer,
                ..*old(self)
            }),
    {
        broadcast use vstd::std_specs::hash::group_hash_axioms;

        let ghost all = messages@;
        let ghost cache = self.quote_cache@;
        for msg in it: messages
            invariant
                it.seq() == all,
                cache == old(self).quote_cache@,
                *self == (MessagesView { quote_cache: self.quote_cache, ..*old(self) }),
                forall|id: i32| #[trigger]
                    self.quote_cache@.contains_key(id) <==> cache.contains_key(id) || exists|i: int|
                        0 <= i < it.index() && (#[trigger] all[i]).id == id,
                forall|id: i32|
                    #![trigger self.quote_cache@[id]]
                    cache.contains_key(id) && (forall|i: int|
                        0 <= i < it.index() ==> (#[trigger] all[i]).id != id) ==> self.quote_cache@[id]
                        == cache[id],
                forall|i: int|
                    0 <= i < it.index() && (forall|j: int|
                        i < j < it.index() ==> (#[trigger] all[j]).id != all[i].id) ==> {
                        &&& self.quote_cache@[(#[trigger] all[i]).id].sender == all[i].sender
                        &&& self.quote_cache@[all[i].id].text == all[i].text
                    },
        {
            let ghost before = self.quote_cache@;
            self.quote_cache.insert(msg.id, Quote { sender: msg.sender, text: msg.text });
            let ghost at = it.index() as int;
            assert(all[at] == msg);
            assert forall|id: i32| #[trigger]
                self.quote_cache@.contains_key(id) <==> cache.contains_key(id) || exists|i: int|
                    0 <= i < at + 1 && (#[trigger] all[i]).id == id by {
                if exists|i: int| 0 <= i < at + 1 && (#[trigger] all[i]).id == id {
                    let i = choose|i: int| 0 <= i < at + 1 && (#[trigger] all[i]).id == id;
                    if i < at {
                        assert(before.contains_key(id));
                    }
                }
                if before.contains_key(id) && !cache.contains_key(id) {
                    let i = choose|i: int| 0 <= i < at && (#[trigger] all[i]).id == id;
                    assert(all[i].id == id);
                }
            }
            assert forall|i: int|
                0 <= i < at + 1 && (forall|j: int|
                    i < j < at + 1 ==> (#[trigger] all[j]).id != all[i].id) implies ({
                &&& self.quote_cache@[(#[trigger] all[i]).id].sender == all[i].sender
                &&& self.quote_cache@[all[i].id].text == all[i].text
            }) by {
                if i < at {
                    assert(all[at].id != all[i].id);
                }
            }
        }
        self.refresh_reply_bar();
    }
}

/// A page that repeats what the list holds already brings no message in twice: the
/// list still holds each id once, in order.
pub proof fn law_pages_never_duplicate(view: MessagesView, messages: Seq<Msg>)
    requires
        view.well_formed(),
    ensures
        ({
            let after = with_messages(
                view.store.chat_id,
                view.store.entries@,
                messages,
                messages.len() as int,
            );
            &&& crate::messages::store::ascending(after)
            &&& forall|id: i32| view.knows(id) ==> #[trigger] holds(after, id)
        }),
{
    law_merge(view.store.chat_id, view.store.entries@, messages, messages.len() as int);
}

} // verus!
