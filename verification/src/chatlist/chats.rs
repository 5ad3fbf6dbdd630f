//! What happens to the chats of the list.

use vstd::prelude::*;

use crate::chatlist::list::{
    archived_in, bars_filled, bars_tabbed, first_place, folder_holds, folder_place, front_of,
    has_id, ids_of, ids_outside, ids_without, kept_read, law_moved_to_front, lemma_contains_sum,
    lemma_filter_contains, lemma_filter_prefix, lemma_first_place, lemma_inserted_contains,
    lemma_pushed_contains, lemma_taken_in, lemma_without_absent, none_of, other_than, outside,
    shown_in, taken_in, unread_in, without_id, Bars, ChatList, Page, SidebarMode,
};
use crate::chatlist::row::{badge, badge_of, countable, update_unread, updated_unread, UnreadUpdate};
use crate::chatlist::search::SearchData;
use crate::chatlist::table::{known, stands_at, ChatTable};
use crate::clock::Stamp;
use crate::text::{trim, trimmed};
use crate::tg::{ChatKind, ChatSummary, Folder, Presence};

verus! {

impl ChatTable {
    /// Forgets all chats but those with the given ids.
    fn retain(&mut self, keep: &Vec<i64>)
        requires
            old(self).well_formed(),
        ensures
            final(self).well_formed(),
            forall|id: i64| #[trigger]
                final(self)@.contains_key(id) <==> old(self)@.contains_key(id) && keep@.contains(id),
            forall|id: i64|
                final(self)@.contains_key(id) ==> #[trigger] final(self)@[id] == old(self)@[id],
    {
        let mut i: usize = self.chats.len();
        while i > 0
            invariant
                self.well_formed(),
                i <= self.chats@.len(),
                forall|j: int|
                    i <= j < self.chats@.len() ==> keep@.contains((#[trigger] self.chats@[j]).id),
                forall|id: i64| #[trigger]
                    self@.contains_key(id) ==> old(self)@.contains_key(id) && self@[id]
                        == old(self)@[id],
                forall|id: i64|
                    old(self)@.contains_key(id) && #[trigger] keep@.contains(id)
                        ==> self@.contains_key(id),
            decreases i,
        {
            i -= 1;
            let id = self.chats[i].id;
            if !has_id(keep, id) {
                let ghost before = self.chats@;
                let ghost map = self@;
                self.remove_at(i);
                assert forall|j: int| i <= j < self.chats@.len() implies keep@.contains(
                    (#[trigger] self.chats@[j]).id,
                ) by {
                    assert(self.chats@[j] == before[j + 1]);
                }
            }
        }
        assert forall|id: i64| #[trigger] self@.contains_key(id) implies keep@.contains(id) by {
            let at = choose|at: int| #[trigger] stands_at(self.chats@, id, at);
            assert(keep@.contains(self.chats@[at].id));
        }
    }

    /// Forgets the chat that stands at `at`.
    fn remove_at(&mut self, at: usize)
        requires
            old(self).well_formed(),
            at < old(self).chats@.len(),
        ensures
            final(self).well_formed(),
            final(self).chats@ == old(self).chats@.remove(at as int),
            final(self)@ == old(self)@.remove(old(self).chats@[at as int].id),
    {
        let ghost before = self.chats@;
        let _removed = self.chats.remove(at);
        let ghost after = self.chats@;
        proof {
            assert forall|i: int, j: int| 0 <= i < j < after.len() implies (#[trigger] after[i]).id != (
            #[trigger] after[j]).id by {
                let a = if i < at { i } else { i + 1 };
                let b = if j < at { j } else { j + 1 };
                assert(before[a].id != before[b].id);
            }
            crate::chatlist::table::lemma_removed(before, at as int);
        }
    }

    /// How many chats are archived.
    fn archived(&self) -> (count: usize)
        ensures
            count == archived_in(self.chats@),
            count <= self.chats@.len(),
    {
        let mut count: usize = 0;
        let mut i: usize = 0;
        assert(self.chats@.take(0) =~= Seq::<ChatSummary>::empty());
        while i < self.chats.len()
            invariant
                i <= self.chats@.len(),
                count <= i,
                count == archived_in(self.chats@.take(i as int)),
            decreases self.chats@.len() - i,
        {
            assert(self.chats@.take(i + 1).drop_last() =~= self.chats@.take(i as int));
            if self.chats[i].archived {
                count += 1;
            }
            i += 1;
        }
        assert(self.chats@.take(i as int) =~= self.chats@);
        count
    }
}

proof fn lemma_unread_grows(chats: Seq<ChatSummary>, folder: Folder, count: int)
    requires
        0 <= count <= chats.len(),
    ensures
        0 <= unread_in(chats.take(count), folder) <= unread_in(chats, folder),
    decreases chats.len(),
{
    if chats.len() > 0 {
        if count == chats.len() {
            assert(chats.take(count) =~= chats);
            lemma_unread_grows(chats.drop_last(), folder, chats.len() - 1);
            assert(chats.drop_last().take(chats.len() - 1) =~= chats.drop_last());
        } else {
            lemma_unread_grows(chats.drop_last(), folder, count);
            assert(chats.drop_last().take(count) =~= chats.take(count));
        }
    } else {
        assert(chats.take(count) =~= chats);
    }
}

/// A chat that has a new message.
pub open spec fn upserted(
    before: Map<i64, ChatSummary>,
    after: ChatSummary,
    id: i64,
    title: Seq<char>,
    preview: Seq<char>,
    time: Option<Stamp>,
    unread: UnreadUpdate,
    unknown_title: Seq<char>,
) -> bool {
    &&& after.id == id
    &&& after.last_message@ == preview
    &&& after.last_time == time
    &&& if before.contains_key(id) {
        let known_chat = before[id];
        &&& after.title@ == (if trimmed(title).len() == 0 { known_chat.title@ } else { title })
        &&& after.unread == updated_unread(known_chat.unread, unread)
        &&& after == (ChatSummary {
            title: after.title,
            last_message: after.last_message,
            last_time: time,
            unread: after.unread,
            ..known_chat
        })
    } else {
        &&& after.title@ == (if trimmed(title).len() == 0 { unknown_title } else { title })
        &&& after.unread == updated_unread(0, unread)
        &&& after.kind == ChatKind::User
        &&& (ChatSummary { last_time: None, unread: 0, ..after }).blank()
    }
}

/// How many messages of a chat are unread, zero for a chat that is not known.
pub open spec fn unread_before(table: Map<i64, ChatSummary>, id: i64) -> i32 {
    if table.contains_key(id) {
        table[id].unread
    } else {
        0
    }
}

impl ChatList {
    /// Each known chat has a place in the order. A place without a chat is that of one
    /// that is not Telegram's and was removed. A listed folder is the one to go back
    /// to.
    pub open spec fn well_formed(self) -> bool {
        &&& self.table.well_formed()
        &&& forall|id: i64| #[trigger] self.table@.contains_key(id) ==> self.order@.contains(id)
        &&& forall|id: i64| #[trigger]
            self.order@.contains(id) ==> self.table@.contains_key(id) || self.virtual_order@.contains(
                id,
            )
        &&& self.mode is Dialogs ==> self.prior_mode == self.mode
    }

    /// The chats that are not Telegram's are all known, each stands in the list once,
    /// and they come first. It is so from the beginning, and stays so until one of
    /// them is removed or given twice.
    pub open spec fn virtual_first(self) -> bool {
        &&& self.virtual_order@.no_duplicates()
        &&& self.virtual_order@.is_prefix_of(self.order@)
        &&& forall|id: i64| #[trigger]
            self.virtual_order@.contains(id) ==> self.table@.contains_key(id)
    }

    /// Whether there is a place for a chat that moves to the front: where chats that
    /// are not Telegram's were removed, the list may be too short for it.
    pub open spec fn has_place(self, chat_id: i64) -> bool {
        front_of(self.virtual_order@, chat_id) <= ids_without(self.order@, chat_id).len()
    }

    pub fn new() -> (list: ChatList)
        ensures
            list.well_formed(),
            list.virtual_first(),
            list.table@ == Map::<i64, ChatSummary>::empty(),
            list.order@.len() == 0,
            list.virtual_order@.len() == 0,
            list.folders@.len() == 0,
            list.selected is None,
            list.mode == SidebarMode::Dialogs(0),
            list.prior_mode == SidebarMode::Dialogs(0),
            list.show_avatars,
            list.bars == (Bars {
                collapsed: false,
                menu_button: true,
                back_button: false,
                archived_title: false,
                search: true,
                folder_bar: false,
                active_folder: 0,
                archived_button: false,
                archived_count: 0,
                page: Page::Dialogs,
            }),
            list.search.idle(),
    {
        let list = ChatList {
            table: ChatTable::new(),
            order: Vec::new(),
            virtual_order: Vec::new(),
            folders: Vec::new(),
            selected: None,
            mode: SidebarMode::Dialogs(0),
            prior_mode: SidebarMode::Dialogs(0),
            bars: Bars {
                collapsed: false,
                menu_button: true,
                back_button: false,
                archived_title: false,
                search: true,
                folder_bar: false,
                active_folder: 0,
                archived_button: false,
                archived_count: 0,
                page: Page::Dialogs,
            },
            show_avatars: true,
            search: SearchData::new(),
        };
        assert(list.virtual_order@.is_prefix_of(list.order@)) by {
            assert(list.order@.subrange(0, 0) =~= list.virtual_order@);
        }
        list
    }

    /// The list is filled anew.
    pub(crate) fn rebuild_visible(&mut self)
        ensures
            final(self).bars == bars_filled(
                old(self).bars,
                old(self).mode,
                archived_in(old(self).table.chats@),
            ),
            *final(self) == (ChatList { bars: final(self).bars, ..*old(self) }),
    {
        let archived = self.table.archived();
        let bars = self.bars;
        self.bars = match &self.mode {
            SidebarMode::Search(_) => Bars { page: Page::Search, ..bars },
            SidebarMode::Dialogs(_) => Bars {
                archived_count: archived,
                archived_button: !bars.collapsed && archived > 0,
                page: Page::Dialogs,
                ..bars
            },
            SidebarMode::Archived => Bars {
                archived_count: archived,
                archived_button: false,
                page: Page::Dialogs,
                ..bars
            },
        };
    }

    /// The folders' tabs are made anew.
    pub(crate) fn rebuild_folder_tabs(&mut self, active: i32)
        ensures
            final(self).bars == bars_tabbed(
                old(self).bars,
                old(self).mode,
                old(self).folders@.len(),
                active,
            ),
            *final(self) == (ChatList { bars: final(self).bars, ..*old(self) }),
    {
        let bars = self.bars;
        let dialogs = matches!(self.mode, SidebarMode::Dialogs(_));
        let folder_bar = self.folders.len() > 0 && !bars.collapsed && dialogs;
        self.bars = Bars { folder_bar, active_folder: active, ..bars };
    }

    /// Which folder's chats are listed, or will be once the search is over.
    pub open spec fn current_folder(self) -> i32 {
        match self.mode {
            SidebarMode::Dialogs(folder) => folder,
            _ => match self.prior_mode {
                SidebarMode::Dialogs(folder) => folder,
                _ => 0,
            },
        }
    }

    /// The server's chats, in its order. Chats that it no longer names are
    /// forgotten.
    pub fn set_chats(&mut self, chats: Vec<ChatSummary>)
        requires
            old(self).well_formed(),
        ensures
            final(self).well_formed(),
            old(self).virtual_first() ==> final(self).virtual_first(),
            final(self).order@ == old(self).virtual_order@ + ids_of(chats@),
            forall|id: i64| #[trigger]
                final(self).table@.contains_key(id) <==> ids_of(chats@).contains(id) || (
                old(self).virtual_order@.contains(id) && old(self).table@.contains_key(id)),
            forall|id: i64|
                final(self).table@.contains_key(id) ==> #[trigger] final(self).table@[id]
                    == taken_in(old(self).table@, chats@, chats@.len() as int)[id],
            final(self).bars == bars_tabbed(
                bars_filled(old(self).bars, old(self).mode, archived_in(final(self).table.chats@)),
                old(self).mode,
                old(self).folders@.len(),
                old(self).current_folder(),
            ),
            *final(self) == (ChatList {
                table: final(self).table,
                order: final(self).order,
                bars: final(self).bars,
                ..*old(self)
            }),
    {
        let ghost all = chats@;
        let ghost table = self.table@;
        let mut order: Vec<i64> = copy_ids(&self.virtual_order);
        for chat in it: chats
            invariant
                it.seq() == all,
                self.table.well_formed(),
                table == old(self).table@,
                self.table@ == taken_in(table, all, it.index() as int),
                *self == (ChatList { table: self.table, ..*old(self) }),
                order@ == old(self).virtual_order@ + ids_of(all).take(it.index() as int),
        {
            let ghost at = it.index() as int;
            order.push(chat.id);
            assert(ids_of(all)[at] == chat.id);
            assert(order@ =~= old(self).virtual_order@ + ids_of(all).take(at + 1));
            let preserve = match self.table.get(chat.id) {
                Some(known_chat) => known_chat.unread == 0 && !known_chat.unread_mark,
                None => false,
            };
            let chat = if preserve {
                let mut read = chat;
                read.unread = 0;
                read
            } else {
                chat
            };
            self.table.insert(chat);
        }
        assert(ids_of(all).take(all.len() as int) =~= ids_of(all));
        let ghost taken = self.table@;
        proof {
            lemma_taken_in(table, all, all.len() as int);
        }
        self.table.retain(&order);
        assert forall|id: i64| #[trigger] order@.contains(id) <==> old(self).virtual_order@.contains(id)
            || ids_of(all).contains(id) by {
            lemma_contains_sum(old(self).virtual_order@, ids_of(all), id);
        }
        assert forall|id: i64| #[trigger] self.table@.contains_key(id) <==> ids_of(all).contains(id) || (
        old(self).virtual_order@.contains(id) && table.contains_key(id)) by {
            assert(order@.contains(id) <==> old(self).virtual_order@.contains(id) || ids_of(
                all,
            ).contains(id));
            assert(self.table@.contains_key(id) <==> taken.contains_key(id) && order@.contains(id));
        }
        self.order = order;
        assert(self.virtual_order@.is_prefix_of(self.order@)) by {
            assert(self.order@.subrange(0, self.virtual_order@.len() as int)
                =~= self.virtual_order@);
        }
        self.rebuild_visible();
        let active = match &self.mode {
            SidebarMode::Dialogs(folder) => *folder,
            _ => match &self.prior_mode {
                SidebarMode::Dialogs(folder) => *folder,
                _ => 0,
            },
        };
        self.rebuild_folder_tabs(active);
    }

    /// Whether a chat can move to the front.
    pub fn can_move(&self, chat_id: i64) -> (answer: bool)
        ensures
            answer == self.has_place(chat_id),
    {
        let others = without_id(&self.order, chat_id);
        front_place(&self.virtual_order, chat_id) <= others.len()
    }

    /// A chat has a new message: it moves to the front.
    pub fn upsert(
        &mut self,
        chat_id: i64,
        title: &str,
        preview: &str,
        time: Option<Stamp>,
        unread: UnreadUpdate,
    )
        requires
            old(self).well_formed(),
            old(self).has_place(chat_id),
            countable(unread_before(old(self).table@, chat_id), unread),
        ensures
            final(self).well_formed(),
            old(self).virtual_first() ==> final(self).virtual_first(),
            upserted(
                old(self).table@,
                final(self).table@[chat_id],
                chat_id,
                title@,
                preview@,
                time,
                unread,
                "Unknown"@,
            ),
            final(self).table@ == old(self).table@.insert(chat_id, final(self).table@[chat_id]),
            final(self).order@ == ids_without(old(self).order@, chat_id).insert(
                front_of(old(self).virtual_order@, chat_id),
                chat_id,
            ),
            final(self).bars == bars_filled(
                old(self).bars,
                old(self).mode,
                archived_in(final(self).table.chats@),
            ),
            *final(self) == (ChatList {
                table: final(self).table,
                order: final(self).order,
                bars: final(self).bars,
                ..*old(self)
            }),
    {
        self.table.upsert(chat_id, title, preview, time, unread, "Unknown");
        let mut order = without_id(&self.order, chat_id);
        let at = front_place(&self.virtual_order, chat_id);
        proof {
            lemma_filter_contains(self.order@, other_than(chat_id));
            lemma_first_place(self.virtual_order@, chat_id);
            assert forall|id: i64| #[trigger] order@.insert(at as int, chat_id).contains(id)
                <==> self.order@.contains(id) || id == chat_id by {
                lemma_inserted_contains(order@, at as int, chat_id, id);
            }
            if old(self).virtual_first() {
                law_moved_to_front(self.virtual_order@, self.order@, chat_id);
            }
        }
        order.insert(at, chat_id);
        self.order = order;
        self.rebuild_visible();
    }

    /// A chat's last message changed: it stays where it is.
    pub fn update(
        &mut self,
        chat_id: i64,
        title: &str,
        preview: &str,
        time: Option<Stamp>,
        unread: UnreadUpdate,
    )
        requires
            old(self).well_formed(),
            countable(unread_before(old(self).table@, chat_id), unread),
        ensures
            final(self).well_formed(),
            old(self).virtual_first() ==> final(self).virtual_first(),
            upserted(
                old(self).table@,
                final(self).table@[chat_id],
                chat_id,
                title@,
                preview@,
                time,
                unread,
                Seq::empty(),
            ),
            final(self).table@ == old(self).table@.insert(chat_id, final(self).table@[chat_id]),
            final(self).order@ == (if old(self).table@.contains_key(chat_id) {
                old(self).order@
            } else {
                old(self).order@.push(chat_id)
            }),
            *final(self) == (ChatList {
                table: final(self).table,
                order: final(self).order,
                ..*old(self)
            }),
    {
        let new_chat = self.table.position(chat_id).is_none();
        proof {
            reveal_strlit("");
            assert(""@ =~= Seq::<char>::empty());
        }
        self.table.upsert(chat_id, title, preview, time, unread, "");
        self.ensure_row(chat_id, new_chat);
    }

    /// A new chat is put behind all others.
    fn ensure_row(&mut self, chat_id: i64, new_chat: bool)
        requires
            old(self).table.well_formed(),
            old(self).table@.contains_key(chat_id),
            old(self).mode is Dialogs ==> old(self).prior_mode == old(self).mode,
            forall|id: i64| #[trigger]
                old(self).table@.contains_key(id) && (id != chat_id || !new_chat)
                    ==> old(self).order@.contains(id),
            forall|id: i64| #[trigger]
                old(self).order@.contains(id) ==> old(self).table@.contains_key(id)
                    || old(self).virtual_order@.contains(id),
        ensures
            final(self).well_formed(),
            old(self).virtual_first() ==> final(self).virtual_first(),
            final(self).order@ == (if new_chat {
                old(self).order@.push(chat_id)
            } else {
                old(self).order@
            }),
            *final(self) == (ChatList { order: final(self).order, ..*old(self) }),
    {
        if new_chat {
            let ghost before = self.order@;
            self.order.push(chat_id);
            assert forall|id: i64| #[trigger] self.order@.contains(id) <==> before.contains(id) || id
                == chat_id by {
                lemma_pushed_contains(before, chat_id, id);
            }
            proof {
                if self.virtual_order@.is_prefix_of(before) {
                    assert(self.order@.subrange(0, self.virtual_order@.len() as int)
                        =~= before.subrange(0, self.virtual_order@.len() as int));
                }
            }
        }
    }

    /// Takes in all that is known of a chat.
    pub fn set_summary(&mut self, summary: ChatSummary)
        requires
            old(self).well_formed(),
        ensures
            final(self).well_formed(),
            old(self).virtual_first() ==> final(self).virtual_first(),
            final(self).table@ == old(self).table@.insert(summary.id, summary),
            final(self).order@ == (if old(self).table@.contains_key(summary.id) {
                old(self).order@
            } else {
                old(self).order@.push(summary.id)
            }),
            final(self).bars == bars_filled(
                old(self).bars,
                old(self).mode,
                archived_in(final(self).table.chats@),
            ),
            *final(self) == (ChatList {
                table: final(self).table,
                order: final(self).order,
                bars: final(self).bars,
                ..*old(self)
            }),
    {
        let chat_id = summary.id;
        let new_chat = self.table.position(chat_id).is_none();
        self.table.insert(summary);
        self.ensure_row(chat_id, new_chat);
        self.rebuild_visible();
    }

    /// Forgets a chat. One that is not Telegram's still counts as one of those in
    /// front.
    pub fn remove_chat(&mut self, chat_id: i64)
        requires
            old(self).well_formed(),
        ensures
            final(self).well_formed(),
            old(self).virtual_first() && !old(self).virtual_order@.contains(chat_id)
                ==> final(self).virtual_first(),
            final(self).table@ == old(self).table@.remove(chat_id),
            final(self).order@ == ids_without(old(self).order@, chat_id),
            final(self).selected == (if old(self).selected == Some(chat_id) {
                None
            } else {
                old(self).selected
            }),
            final(self).bars == bars_filled(
                old(self).bars,
                old(self).mode,
                archived_in(final(self).table.chats@),
            ),
            *final(self) == (ChatList {
                table: final(self).table,
                order: final(self).order,
                selected: final(self).selected,
                bars: final(self).bars,
                ..*old(self)
            }),
    {
        let selected = self.selected;
        self.selected = if selected == Some(chat_id) { None } else { selected };
        proof {
            lemma_filter_contains(self.order@, other_than(chat_id));
            if self.virtual_first() && !self.virtual_order@.contains(chat_id) {
                lemma_filter_prefix(self.virtual_order@, self.order@, other_than(chat_id));
                lemma_without_absent(self.virtual_order@, chat_id);
            }
        }
        self.table.remove(chat_id);
        self.order = without_id(&self.order, chat_id);
        self.rebuild_visible();
    }
}

impl ChatTable {
    /// A chat has a new last message.
    fn upsert(
        &mut self,
        id: i64,
        title: &str,
        preview: &str,
        time: Option<Stamp>,
        unread: UnreadUpdate,
        unknown_title: &str,
    )
        requires
            old(self).well_formed(),
            countable(unread_before(old(self)@, id), unread),
        ensures
            final(self).well_formed(),
            upserted(
                old(self)@,
                final(self)@[id],
                id,
                title@,
                preview@,
                time,
                unread,
                unknown_title@,
            ),
            final(self)@ == old(self)@.insert(id, final(self)@[id]),
    {
        let blank_title = trim(title).as_str().is_empty();
        let mut chat = match self.get(id) {
            Some(known_chat) => known_chat.clone(),
            None => ChatSummary::new(
                id,
                unknown_title.to_owned(),
                ChatKind::User,
                String::new(),
            ),
        };
        if !blank_title {
            chat.title = title.to_owned();
        }
        chat.last_message = preview.to_owned();
        chat.last_time = time;
        chat.unread = update_unread(chat.unread, unread);
        self.insert(chat);
    }
}

pub(crate) fn copy_ids(ids: &Vec<i64>) -> (copy: Vec<i64>)
    ensures
        copy@ == ids@,
{
    let mut copy: Vec<i64> = Vec::new();
    let mut i: usize = 0;
    while i < ids.len()
        invariant
            i <= ids@.len(),
            copy@ == ids@.take(i as int),
        decreases ids@.len() - i,
    {
        copy.push(ids[i]);
        i += 1;
        assert(copy@ =~= ids@.take(i as int));
    }
    assert(ids@.take(i as int) =~= ids@);
    copy
}

fn front_place(virtual_order: &Vec<i64>, id: i64) -> (at: usize)
    ensures
        at == front_of(virtual_order@, id),
{
    proof {
        lemma_first_place(virtual_order@, id);
    }
    let mut at: usize = 0;
    while at < virtual_order.len()
        invariant
            at <= first_place(virtual_order@, id) <= virtual_order@.len(),
            first_place(virtual_order@, id) < virtual_order@.len() ==> virtual_order@[first_place(
                virtual_order@,
                id,
            )] == id,
            forall|i: int| 0 <= i < first_place(virtual_order@, id) ==> virtual_order@[i] != id,
        decreases virtual_order@.len() - at,
    {
        if virtual_order[at] == id {
            return at;
        }
        at += 1;
    }
    at
}

/// A row for a chat that is not Telegram's.
pub struct VirtualRow {
    pub id: i64,
    pub title: String,
    pub preview: String,
}

/// The ids of some rows.
pub open spec fn row_ids(rows: Seq<VirtualRow>) -> Seq<i64> {
    rows.map_values(|row: VirtualRow| row.id)
}

/// Whether no later one of the first `given` rows is for the same chat.
pub open spec fn is_last_row(rows: Seq<VirtualRow>, i: int, given: int) -> bool {
    forall|j: int| i < j < given ==> (#[trigger] rows[j]).id != rows[i].id
}

/// Whether a chat holds what a row says, and nothing else.
pub open spec fn made_of(chat: ChatSummary, row: VirtualRow) -> bool {
    &&& chat.id == row.id
    &&& chat.title == row.title
    &&& chat.last_message == row.preview
    &&& chat.kind == ChatKind::Bot
    &&& chat.blank()
}

fn ids_of_rows(rows: &Vec<VirtualRow>) -> (ids: Vec<i64>)
    ensures
        ids@ == row_ids(rows@),
{
    let mut ids: Vec<i64> = Vec::new();
    let mut i: usize = 0;
    while i < rows.len()
        invariant
            i <= rows@.len(),
            ids@ == row_ids(rows@).take(i as int),
        decreases rows@.len() - i,
    {
        ids.push(rows[i].id);
        i += 1;
        assert(ids@ =~= row_ids(rows@).take(i as int));
    }
    assert(row_ids(rows@).take(i as int) =~= row_ids(rows@));
    ids
}

impl ChatTable {
    /// Takes in the chats that are not Telegram's.
    fn take_virtual(&mut self, rows: Vec<VirtualRow>)
        requires
            old(self).well_formed(),
        ensures
            final(self).well_formed(),
            forall|id: i64| #[trigger]
                final(self)@.contains_key(id) <==> old(self)@.contains_key(id) || row_ids(
                    rows@,
                ).contains(id),
            forall|id: i64|
                !row_ids(rows@).contains(id) && old(self)@.contains_key(id)
                    ==> #[trigger] final(self)@[id] == old(self)@[id],
            forall|i: int|
                0 <= i < rows@.len() && is_last_row(rows@, i, rows@.len() as int) ==> made_of(
                    final(self)@[(#[trigger] rows@[i]).id],
                    rows@[i],
                ),
    {
        let ghost all = rows@;
        let ghost wanted = row_ids(all);
        for row in it: rows
            invariant
                it.seq() == all,
                wanted == row_ids(all),
                self.well_formed(),
                forall|id: i64| #[trigger]
                    self@.contains_key(id) <==> old(self)@.contains_key(id) || wanted.take(
                        it.index() as int,
                    ).contains(id),
                forall|id: i64|
                    !wanted.take(it.index() as int).contains(id) && old(self)@.contains_key(id)
                        ==> #[trigger] self@[id] == old(self)@[id],
                forall|i: int|
                    0 <= i < it.index() && is_last_row(all, i, it.index() as int) ==> made_of(
                        self@[(#[trigger] all[i]).id],
                        all[i],
                    ),
        {
            let ghost at = it.index() as int;
            let ghost before = wanted.take(at);
            let ghost table = self@;
            let ghost id = row.id;
            self.insert(ChatSummary::new(row.id, row.title, ChatKind::Bot, row.preview));
            assert(wanted[at] == id);
            assert(wanted.take(at + 1) =~= before.push(id));
            assert forall|other: i64| #[trigger] self@.contains_key(other) <==> old(self)@.contains_key(
                other,
            ) || wanted.take(at + 1).contains(other) by {
                lemma_pushed_contains(before, id, other);
                assert(table.contains_key(other) <==> old(self)@.contains_key(other)
                    || before.contains(other));
            }
            assert forall|other: i64|
                !wanted.take(at + 1).contains(other) && old(self)@.contains_key(
                    other,
                ) implies #[trigger] self@[other] == old(self)@[other] by {
                lemma_pushed_contains(before, id, other);
                assert(table[other] == old(self)@[other]);
            }
            assert forall|i: int| 0 <= i < at + 1 && is_last_row(all, i, at + 1) implies made_of(
                self@[(#[trigger] all[i]).id],
                all[i],
            ) by {
                if i < at {
                    assert(all[at].id != all[i].id);
                    assert(is_last_row(all, i, at));
                    assert(made_of(table[all[i].id], all[i]));
                }
            }
        }
        assert(wanted.take(all.len() as int) =~= wanted);
    }

    /// Forgets the given chats.
    fn remove_all(&mut self, ids: &Vec<i64>)
        requires
            old(self).well_formed(),
        ensures
            final(self).well_formed(),
            forall|id: i64| #[trigger]
                final(self)@.contains_key(id) <==> old(self)@.contains_key(id) && !ids@.contains(id),
            forall|id: i64|
                final(self)@.contains_key(id) ==> #[trigger] final(self)@[id] == old(self)@[id],
    {
        let mut i: usize = 0;
        assert(ids@.take(0) =~= Seq::<i64>::empty());
        while i < ids.len()
            invariant
                i <= ids@.len(),
                self.well_formed(),
                forall|id: i64| #[trigger]
                    self@.contains_key(id) <==> old(self)@.contains_key(id) && !ids@.take(
                        i as int,
                    ).contains(id),
                forall|id: i64|
                    self@.contains_key(id) ==> #[trigger] self@[id] == old(self)@[id],
            decreases ids@.len() - i,
        {
            let ghost before = self@;
            self.remove(ids[i]);
            assert(ids@.take(i + 1) =~= ids@.take(i as int).push(ids@[i as int]));
            assert forall|id: i64| #[trigger] self@.contains_key(id) <==> old(self)@.contains_key(id)
                && !ids@.take(i + 1).contains(id) by {
                lemma_pushed_contains(ids@.take(i as int), ids@[i as int], id);
                assert(before.contains_key(id) <==> old(self)@.contains_key(id) && !ids@.take(
                    i as int,
                ).contains(id));
            }
            i += 1;
        }
        assert(ids@.take(i as int) =~= ids@);
    }
}

impl ChatList {
    /// The chats that are not Telegram's, in their order. Those that are no longer
    /// wanted are forgotten. A chat that is given more than once stands in the list as
    /// often, and says what is given last.
    pub fn set_virtual(&mut self, rows: Vec<VirtualRow>)
        requires
            old(self).well_formed(),
        ensures
            final(self).well_formed(),
            row_ids(rows@).no_duplicates() ==> final(self).virtual_first(),
            final(self).virtual_order@ == row_ids(rows@),
            final(self).order@ == row_ids(rows@) + ids_outside(
                ids_outside(
                    old(self).order@,
                    ids_outside(old(self).virtual_order@, row_ids(rows@)),
                ),
                row_ids(rows@),
            ),
            forall|id: i64| #[trigger]
                final(self).table@.contains_key(id) <==> row_ids(rows@).contains(id) || (
                old(self).table@.contains_key(id) && !old(self).virtual_order@.contains(id)),
            forall|id: i64|
                !row_ids(rows@).contains(id) && final(self).table@.contains_key(id)
                    ==> #[trigger] final(self).table@[id] == old(self).table@[id],
            forall|i: int|
                0 <= i < rows@.len() && is_last_row(rows@, i, rows@.len() as int) ==> made_of(
                    final(self).table@[(#[trigger] rows@[i]).id],
                    rows@[i],
                ),
            final(self).bars == bars_filled(
                old(self).bars,
                old(self).mode,
                archived_in(final(self).table.chats@),
            ),
            *final(self) == (ChatList {
                table: final(self).table,
                order: final(self).order,
                virtual_order: final(self).virtual_order,
                bars: final(self).bars,
                ..*old(self)
            }),
    {
        let ids = ids_of_rows(&rows);
        let ghost wanted = ids@;
        let unwanted = outside(&self.virtual_order, &ids);
        self.table.remove_all(&unwanted);
        let ghost left = self.table@;
        self.table.take_virtual(rows);
        let kept = outside(&self.order, &unwanted);
        let mut rest = outside(&kept, &ids);
        let mut order = copy_ids(&ids);
        let ghost tail = rest@;
        order.append(&mut rest);
        assert(order@ =~= wanted + tail);
        proof {
            lemma_filter_contains(self.virtual_order@, none_of(wanted));
            lemma_filter_contains(self.order@, none_of(unwanted@));
            lemma_filter_contains(kept@, none_of(wanted));
        }
        assert forall|id: i64| #[trigger] unwanted@.contains(id) <==> self.virtual_order@.contains(id)
            && !wanted.contains(id) by {}
        assert forall|id: i64| #[trigger] self.table@.contains_key(id) <==> wanted.contains(id) || (
        old(self).table@.contains_key(id) && !old(self).virtual_order@.contains(id)) by {
            assert(left.contains_key(id) <==> old(self).table@.contains_key(id)
                && !unwanted@.contains(id));
        }
        assert forall|id: i64| #[trigger] order@.contains(id) <==> self.table@.contains_key(id) by {
            lemma_contains_sum(wanted, tail, id);
            assert(kept@.contains(id) <==> self.order@.contains(id) && !unwanted@.contains(id));
            assert(tail.contains(id) <==> kept@.contains(id) && !wanted.contains(id));
            if old(self).table@.contains_key(id) {
                assert(self.order@.contains(id));
            }
        }
        self.virtual_order = ids;
        self.order = order;
        assert(self.order@.subrange(0, self.virtual_order@.len() as int) =~= self.virtual_order@);
        self.rebuild_visible();
    }

    /// The folders, and which of them is shown. One that is not among them is not
    /// shown.
    pub fn set_folders(&mut self, folders: Vec<Folder>, active: i32)
        requires
            old(self).well_formed(),
        ensures
            final(self).well_formed(),
            final(self).folders == folders,
            ({
                let chosen = if active == 0 || (exists|i: int|
                    0 <= i < folders@.len() && (#[trigger] folders@[i]).id == active) {
                    active
                } else {
                    0
                };
                &&& final(self).mode == (if old(self).mode is Dialogs {
                    SidebarMode::Dialogs(chosen)
                } else {
                    old(self).mode
                })
                &&& final(self).prior_mode == (if old(self).mode is Dialogs {
                    SidebarMode::Dialogs(chosen)
                } else {
                    old(self).prior_mode
                })
                &&& final(self).bars == bars_filled(
                    bars_tabbed(old(self).bars, final(self).mode, folders@.len(), chosen),
                    final(self).mode,
                    archived_in(old(self).table.chats@),
                )
            }),
            *final(self) == (ChatList {
                folders,
                mode: final(self).mode,
                prior_mode: final(self).prior_mode,
                bars: final(self).bars,
                ..*old(self)
            }),
    {
        let chosen: i32 = if active == 0 || has_folder(&folders, active) { active } else { 0 };
        self.folders = folders;
        if matches!(self.mode, SidebarMode::Dialogs(_)) {
            self.mode = SidebarMode::Dialogs(chosen);
            self.prior_mode = SidebarMode::Dialogs(chosen);
        }
        self.rebuild_folder_tabs(chosen);
        self.rebuild_visible();
    }

    /// How many messages of a folder are unread.
    pub fn folder_unread(&self, folder: &Folder) -> (count: i32)
        requires
            unread_in(self.table.chats@, *folder) <= i32::MAX,
        ensures
            count == unread_in(self.table.chats@, *folder),
    {
        let chats = &self.table.chats;
        let mut count: i32 = 0;
        let mut i: usize = 0;
        assert(chats@.take(0) =~= Seq::<ChatSummary>::empty());
        while i < chats.len()
            invariant
                chats == self.table.chats,
                i <= chats@.len(),
                unread_in(chats@, *folder) <= i32::MAX,
                count == unread_in(chats@.take(i as int), *folder),
            decreases chats@.len() - i,
        {
            proof {
                lemma_unread_grows(chats@, *folder, i + 1);
                assert(chats@.take(i + 1).drop_last() =~= chats@.take(i as int));
                assert(chats@.take(i + 1).last() == chats@[i as int]);
            }
            if folder.id == 0 || has_id(&folder.chats, chats[i].id) {
                count += badge_of(&chats[i]);
            }
            i += 1;
        }
        assert(chats@.take(i as int) =~= chats@);
        count
    }

    /// Changes a chat that is known.
    fn replace(&mut self, chat: ChatSummary)
        requires
            old(self).well_formed(),
            old(self).table@.contains_key(chat.id),
        ensures
            final(self).well_formed(),
            final(self).table@ == old(self).table@.insert(chat.id, chat),
            *final(self) == (ChatList { table: final(self).table, ..*old(self) }),
    {
        self.table.insert(chat);
    }

    pub fn set_draft(&mut self, chat_id: i64, text: &str)
        requires
            old(self).well_formed(),
        ensures
            final(self).well_formed(),
            old(self).table@.contains_key(chat_id) ==> {
                &&& final(self).table@[chat_id].draft@ == text@
                &&& final(self).table@ == old(self).table@.insert(
                    chat_id,
                    ChatSummary {
                        draft: final(self).table@[chat_id].draft,
                        ..old(self).table@[chat_id]
                    },
                )
            },
            !old(self).table@.contains_key(chat_id) ==> final(self).table == old(self).table,
            *final(self) == (ChatList { table: final(self).table, ..*old(self) }),
    {
        let changed = match self.table.get(chat_id) {
            Some(chat) => Some(chat.clone()),
            None => None,
        };
        if let Some(mut chat) = changed {
            chat.draft = text.to_owned();
            self.replace(chat);
        }
    }

    /// A chat was read.
    pub fn clear_unread(&mut self, chat_id: i64)
        requires
            old(self).well_formed(),
        ensures
            final(self).well_formed(),
            old(self).table@.contains_key(chat_id) ==> final(self).table@ == old(self).table@.insert(
                chat_id,
                ChatSummary { unread: 0, unread_mark: false, ..old(self).table@[chat_id] },
            ),
            !old(self).table@.contains_key(chat_id) ==> final(self).table == old(self).table,
            *final(self) == (ChatList { table: final(self).table, ..*old(self) }),
    {
        let changed = match self.table.get(chat_id) {
            Some(chat) => Some(chat.clone()),
            None => None,
        };
        if let Some(mut chat) = changed {
            chat.unread = 0;
            chat.unread_mark = false;
            self.replace(chat);
        }
    }

    /// A chat was marked as unread, or as read.
    pub fn set_unread_mark(&mut self, chat_id: i64, unread: bool)
        requires
            old(self).well_formed(),
        ensures
            final(self).well_formed(),
            old(self).table@.contains_key(chat_id) ==> final(self).table@ == old(self).table@.insert(
                chat_id,
                ChatSummary {
                    unread_mark: unread,
                    unread: if unread { old(self).table@[chat_id].unread } else { 0 },
                    ..old(self).table@[chat_id]
                },
            ),
            !old(self).table@.contains_key(chat_id) ==> final(self).table == old(self).table,
            *final(self) == (ChatList { table: final(self).table, ..*old(self) }),
    {
        let changed = match self.table.get(chat_id) {
            Some(chat) => Some(chat.clone()),
            None => None,
        };
        if let Some(mut chat) = changed {
            chat.unread_mark = unread;
            if !unread {
                chat.unread = 0;
            }
            self.replace(chat);
        }
    }

    /// Own messages of a chat up to this one were read. The mark never goes back.
    pub fn set_read_outbox(&mut self, chat_id: i64, max_id: i32)
        requires
            old(self).well_formed(),
        ensures
            final(self).well_formed(),
            old(self).table@.contains_key(chat_id) ==> final(self).table@ == old(self).table@.insert(
                chat_id,
                ChatSummary {
                    read_outbox_max_id: if max_id > old(self).table@[chat_id].read_outbox_max_id {
                        max_id
                    } else {
                        old(self).table@[chat_id].read_outbox_max_id
                    },
                    ..old(self).table@[chat_id]
                },
            ),
            !old(self).table@.contains_key(chat_id) ==> final(self).table == old(self).table,
            *final(self) == (ChatList { table: final(self).table, ..*old(self) }),
    {
        let changed = match self.table.get(chat_id) {
            Some(chat) => Some(chat.clone()),
            None => None,
        };
        if let Some(mut chat) = changed {
            if max_id > chat.read_outbox_max_id {
                chat.read_outbox_max_id = max_id;
            }
            self.replace(chat);
        }
    }

    pub fn set_presence(&mut self, chat_id: i64, presence: Presence)
        requires
            old(self).well_formed(),
        ensures
            final(self).well_formed(),
            old(self).table@.contains_key(chat_id) ==> final(self).table@ == old(self).table@.insert(
                chat_id,
                ChatSummary { presence, ..old(self).table@[chat_id] },
            ),
            !old(self).table@.contains_key(chat_id) ==> final(self).table == old(self).table,
            *final(self) == (ChatList { table: final(self).table, ..*old(self) }),
    {
        let changed = match self.table.get(chat_id) {
            Some(chat) => Some(chat.clone()),
            None => None,
        };
        if let Some(mut chat) = changed {
            chat.presence = presence;
            self.replace(chat);
        }
    }

    /// How many messages of a chat are unread.
    pub fn unread(&self, chat_id: i64) -> (count: i32)
        requires
            self.well_formed(),
        ensures
            count == (if self.table@.contains_key(chat_id) {
                badge(self.table@[chat_id])
            } else {
                0
            }),
    {
        match self.table.get(chat_id) {
            Some(chat) => badge_of(chat),
            None => 0,
        }
    }

    pub fn summary(&self, chat_id: i64) -> (summary: Option<ChatSummary>)
        requires
            self.well_formed(),
        ensures
            summary == (if self.table@.contains_key(chat_id) {
                Some(self.table@[chat_id])
            } else {
                None
            }),
    {
        match self.table.get(chat_id) {
            Some(chat) => Some(chat.clone()),
            None => None,
        }
    }

    pub fn archived_total(&self) -> (count: usize)
        ensures
            count == archived_in(self.table.chats@),
    {
        self.table.archived()
    }

    /// The ids of the known chats, in order.
    pub open spec fn known_ids(self) -> Seq<i64> {
        self.order@.filter(|id: i64| self.table@.contains_key(id))
    }

    /// The ids and titles of all chats in order.
    pub fn ordered(&self) -> (chats: Vec<(i64, String)>)
        requires
            self.well_formed(),
        ensures
            chats@.len() == self.known_ids().len(),
            forall|i: int|
                0 <= i < chats@.len() ==> (#[trigger] chats@[i]).0 == self.known_ids()[i] && chats@[i].1
                    == self.table@[self.known_ids()[i]].title,
    {
        let ghost keep = |id: i64| self.table@.contains_key(id);
        let mut chats: Vec<(i64, String)> = Vec::new();
        let mut i: usize = 0;
        proof {
            reveal(Seq::filter);
            assert(self.order@.take(0) =~= Seq::<i64>::empty());
        }
        while i < self.order.len()
            invariant
                self.well_formed(),
                keep == (|id: i64| self.table@.contains_key(id)),
                i <= self.order@.len(),
                chats@.len() == self.order@.take(i as int).filter(keep).len(),
                forall|j: int|
                    0 <= j < chats@.len() ==> (#[trigger] chats@[j]).0 == self.order@.take(
                        i as int,
                    ).filter(keep)[j] && chats@[j].1 == self.table@[self.order@.take(
                        i as int,
                    ).filter(keep)[j]].title,
            decreases self.order@.len() - i,
        {
            let id = self.order[i];
            proof {
                reveal(Seq::filter);
                assert(self.order@.take(i + 1).drop_last() =~= self.order@.take(i as int));
                assert(self.order@.take(i + 1).last() == id);
            }
            if let Some(chat) = self.table.get(id) {
                chats.push((id, chat.title.clone()));
            }
            i += 1;
        }
        assert(self.order@.take(i as int) =~= self.order@);
        chats
    }

    /// All chats in order.
    pub fn ordered_summaries(&self) -> (chats: Vec<ChatSummary>)
        requires
            self.well_formed(),
        ensures
            chats@.len() == self.known_ids().len(),
            forall|i: int|
                0 <= i < chats@.len() ==> #[trigger] chats@[i] == self.table@[self.known_ids()[i]],
    {
        let ghost keep = |id: i64| self.table@.contains_key(id);
        let mut chats: Vec<ChatSummary> = Vec::new();
        let mut i: usize = 0;
        proof {
            reveal(Seq::filter);
            assert(self.order@.take(0) =~= Seq::<i64>::empty());
        }
        while i < self.order.len()
            invariant
                self.well_formed(),
                keep == (|id: i64| self.table@.contains_key(id)),
                i <= self.order@.len(),
                chats@.len() == self.order@.take(i as int).filter(keep).len(),
                forall|j: int|
                    0 <= j < chats@.len() ==> #[trigger] chats@[j] == self.table@[self.order@.take(
                        i as int,
                    ).filter(keep)[j]],
            decreases self.order@.len() - i,
        {
            let id = self.order[i];
            proof {
                reveal(Seq::filter);
                assert(self.order@.take(i + 1).drop_last() =~= self.order@.take(i as int));
                assert(self.order@.take(i + 1).last() == id);
            }
            if let Some(chat) = self.table.get(id) {
                chats.push(chat.clone());
            }
            i += 1;
        }
        assert(self.order@.take(i as int) =~= self.order@);
        chats
    }

    /// Whether a chat is in the list just now.
    pub open spec fn is_visible(self) -> spec_fn(i64) -> bool {
        |id: i64|
            self.table@.contains_key(id) && shown_in(self.mode, self.folders@, self.table@[id])
    }

    /// The ids that are in the list just now, in order.
    pub open spec fn visible(self) -> Seq<i64> {
        self.order@.filter(self.is_visible())
    }

    fn shows(&self, id: i64) -> (answer: bool)
        requires
            self.well_formed(),
        ensures
            answer == self.is_visible()(id),
    {
        match self.table.get(id) {
            Some(chat) => match &self.mode {
                SidebarMode::Dialogs(folder) => !chat.archived && (*folder == 0 || holds_chat(
                    &self.folders,
                    *folder,
                    id,
                )),
                SidebarMode::Archived => chat.archived,
                SidebarMode::Search(_) => false,
            },
            None => false,
        }
    }

    pub fn visible_ids(&self) -> (ids: Vec<i64>)
        requires
            self.well_formed(),
        ensures
            ids@ == self.visible(),
    {
        let ghost keep = self.is_visible();
        let mut ids: Vec<i64> = Vec::new();
        let mut i: usize = 0;
        proof {
            reveal(Seq::filter);
            assert(self.order@.take(0) =~= Seq::<i64>::empty());
        }
        while i < self.order.len()
            invariant
                self.well_formed(),
                i <= self.order@.len(),
                keep == self.is_visible(),
                ids@ == self.order@.take(i as int).filter(keep),
            decreases self.order@.len() - i,
        {
            proof {
                reveal(Seq::filter);
                assert(self.order@.take(i + 1).drop_last() =~= self.order@.take(i as int));
            }
            if self.shows(self.order[i]) {
                ids.push(self.order[i]);
            }
            i += 1;
        }
        assert(self.order@.take(i as int) =~= self.order@);
        ids
    }

    /// Selects a chat that is known.
    pub fn select_chat(&mut self, chat_id: i64)
        requires
            old(self).well_formed(),
        ensures
            final(self).well_formed(),
            *final(self) == (ChatList {
                selected: if old(self).table@.contains_key(chat_id) {
                    Some(chat_id)
                } else {
                    old(self).selected
                },
                ..*old(self)
            }),
    {
        let known_chat = self.table.position(chat_id).is_some();
        let selected = self.selected;
        self.selected = if known_chat { Some(chat_id) } else { selected };
    }

    pub fn selected(&self) -> (id: Option<i64>)
        ensures
            id == self.selected,
    {
        self.selected
    }

    /// Which chat is selected next: the one below the selected one or above it, as
    /// far as there is one, and the first where none of the list is selected.
    pub open spec fn neighbor(self, down: bool) -> int {
        let ids = self.visible();
        match self.selected {
            Some(id) => {
                let at = crate::chatlist::list::first_place(ids, id);
                if at >= ids.len() {
                    0
                } else if down {
                    if at + 1 < ids.len() { at + 1 } else { at }
                } else {
                    if at > 0 { at - 1 } else { at }
                }
            },
            None => 0,
        }
    }

    /// Selects a neighbor of the selected chat, and returns which chat is to be
    /// opened.
    fn select_offset(&mut self, down: bool) -> (opened: Option<i64>)
        requires
            old(self).well_formed(),
        ensures
            final(self).well_formed(),
            opened == (if old(self).visible().len() == 0 {
                None
            } else {
                Some(old(self).visible()[old(self).neighbor(down)])
            }),
            *final(self) == (ChatList {
                selected: if opened is Some { opened } else { old(self).selected },
                ..*old(self)
            }),
    {
        let ids = self.visible_ids();
        if ids.len() == 0 {
            return None;
        }
        let place: Option<usize> = match self.selected {
            Some(id) => {
                let at = front_place(&ids, id);
                if at < ids.len() {
                    Some(at)
                } else {
                    None
                }
            },
            None => None,
        };
        proof {
            if let Some(id) = self.selected {
                lemma_first_place(ids@, id);
            }
            lemma_filter_contains(self.order@, self.is_visible());
        }
        let target: usize = match place {
            Some(at) => if down {
                if at + 1 < ids.len() { at + 1 } else { at }
            } else {
                if at > 0 { at - 1 } else { at }
            },
            None => 0,
        };
        let id = ids[target];
        assert(ids@.contains(id));
        self.select_chat(id);
        Some(id)
    }

    pub fn select_next(&mut self) -> (opened: Option<i64>)
        requires
            old(self).well_formed(),
        ensures
            final(self).well_formed(),
            opened == (if old(self).visible().len() == 0 {
                None
            } else {
                Some(old(self).visible()[old(self).neighbor(true)])
            }),
            *final(self) == (ChatList {
                selected: if opened is Some { opened } else { old(self).selected },
                ..*old(self)
            }),
    {
        self.select_offset(true)
    }

    pub fn select_prev(&mut self) -> (opened: Option<i64>)
        requires
            old(self).well_formed(),
        ensures
            final(self).well_formed(),
            opened == (if old(self).visible().len() == 0 {
                None
            } else {
                Some(old(self).visible()[old(self).neighbor(false)])
            }),
            *final(self) == (ChatList {
                selected: if opened is Some { opened } else { old(self).selected },
                ..*old(self)
            }),
    {
        self.select_offset(false)
    }
}

fn has_folder(folders: &Vec<Folder>, id: i32) -> (found: bool)
    ensures
        found == exists|i: int| 0 <= i < folders@.len() && (#[trigger] folders@[i]).id == id,
{
    let mut i: usize = 0;
    while i < folders.len()
        invariant
            i <= folders@.len(),
            forall|j: int| 0 <= j < i ==> (#[trigger] folders@[j]).id != id,
        decreases folders@.len() - i,
    {
        if folders[i].id == id {
            return true;
        }
        i += 1;
    }
    false
}

proof fn lemma_folder_place(folders: Seq<Folder>, id: i32)
    ensures
        0 <= folder_place(folders, id) <= folders.len(),
        folder_place(folders, id) < folders.len() ==> folders[folder_place(folders, id)].id == id,
        forall|i: int| 0 <= i < folder_place(folders, id) ==> (#[trigger] folders[i]).id != id,
    decreases folders.len(),
{
    if folders.len() > 0 {
        let rest = folders.drop_last();
        lemma_folder_place(rest, id);
        assert forall|i: int| 0 <= i < folder_place(folders, id) implies (#[trigger] folders[i]).id != id by {
            if i < rest.len() {
                assert(rest[i] == folders[i]);
            }
        }
    }
}

fn holds_chat(folders: &Vec<Folder>, folder: i32, chat: i64) -> (answer: bool)
    ensures
        answer == folder_holds(folders@, folder, chat),
{
    proof {
        lemma_folder_place(folders@, folder);
    }
    let mut i: usize = 0;
    while i < folders.len()
        invariant
            i <= folder_place(folders@, folder) <= folders@.len(),
            folder_place(folders@, folder) < folders@.len() ==> folders@[folder_place(
                folders@,
                folder,
            )].id == folder,
            forall|j: int|
                0 <= j < folder_place(folders@, folder) ==> (#[trigger] folders@[j]).id != folder,
        decreases folders@.len() - i,
    {
        if folders[i].id == folder {
            return has_id(&folders[i].chats, chat);
        }
        i += 1;
    }
    false
}

/// Where the chats that are not Telegram's come first, every chat can move to the
/// front.
pub proof fn law_every_chat_has_a_place(list: ChatList, chat_id: i64)
    requires
        list.virtual_first(),
    ensures
        list.has_place(chat_id),
{
    law_moved_to_front(list.virtual_order@, list.order@, chat_id);
}

/// A chat that was read here stays read when the server's list comes in, though it
/// may say otherwise.
pub proof fn law_local_reading_is_kept(
    table: Map<i64, ChatSummary>,
    chat: ChatSummary,
)
    requires
        table.contains_key(chat.id),
        table[chat.id].unread == 0,
        !table[chat.id].unread_mark,
    ensures
        kept_read(table, chat).unread == 0,
        kept_read(table, chat) == (ChatSummary { unread: 0, ..chat }),
{
}

} // verus!
