//! What holds of the list of chats: which chats each mode shows, where a chat moves,
//! what a search finds, and what a row says.

use vstd::prelude::*;

use crate::avatar::initials_of;
use crate::chatlist::chats::{is_last_row, made_of, row_ids, upserted, VirtualRow};
use crate::chatlist::list::{
    archived_in, bars_filled, bars_tabbed, first_place, folder_place, front_of, ids_of, ids_outside,
    ids_without, kept_read, lemma_filter_contains, lemma_first_place, none_of, other_than,
    taken_in, unread_in, Bars, ChatList, Page, SidebarMode,
};
use crate::chatlist::modes::{archive_left, archive_shown, is_all, FolderTab};
use crate::chatlist::row::{
    badge, chat_items, found_heading, time_column, updated_unread, ChatRowPlan, UnreadUpdate,
};
use crate::chatlist::search::{
    chats_state, found_by, listed, messages_state, searched, unknown_in, with_remote,
    without_at_signs, SearchData, SectionState,
};
use crate::chatlist::table::by_id;
use crate::clock::Stamp;
use crate::lists::{lemma_kept, lemma_kept_in_order};
use crate::menus::ChatAction;
use crate::text::{contains_text, lowercased, stands_at, trimmed, two_digits};
use crate::tg::{ChatKind, ChatSummary, Folder, Msg, MuteMode, Presence};

verus! {

// ---------------------------------------------------------------- visibility

proof fn lemma_folder_place(folders: Seq<Folder>, id: i32)
    ensures
        0 <= folder_place(folders, id) <= folders.len(),
        folder_place(folders, id) < folders.len() ==> folders[folder_place(folders, id)].id == id,
        forall|i: int| 0 <= i < folder_place(folders, id) ==> (#[trigger] folders[i]).id != id,
    decreases folders.len(),
{
    if folders.len() > 0 {
        lemma_folder_place(folders.drop_last(), id);
        assert forall|i: int| 0 <= i < folder_place(folders, id) implies (#[trigger] folders[i]).id
            != id by {
            if i < folders.len() - 1 {
                assert(folders.drop_last()[i] == folders[i]);
            }
        }
    }
}

/// The list shows only chats that it knows and that stand in it: of the archived
/// ones none among the dialogs, and no others in the archive. In a search it shows
/// none.
pub proof fn law_archived_chats_stand_apart(list: ChatList, id: i64)
    requires
        list.visible().contains(id),
    ensures
        list.order@.contains(id),
        list.table@.contains_key(id),
        list.mode is Dialogs ==> !list.table@[id].archived,
        list.mode is Archived ==> list.table@[id].archived,
        list.mode !is Search,
{
    lemma_filter_contains(list.order@, list.is_visible());
}

/// No chat is shown both among the dialogs and in the archive.
pub proof fn law_dialogs_and_archive_are_disjoint(dialogs: ChatList, archive: ChatList, id: i64)
    requires
        dialogs.mode is Dialogs,
        archive == (ChatList { mode: SidebarMode::Archived, ..dialogs }),
    ensures
        !(dialogs.visible().contains(id) && archive.visible().contains(id)),
        dialogs.mode == SidebarMode::Dialogs(0) && dialogs.order@.contains(id)
            && dialogs.table@.contains_key(id) ==> dialogs.visible().contains(id)
            || archive.visible().contains(id),
{
    lemma_filter_contains(dialogs.order@, dialogs.is_visible());
    lemma_filter_contains(archive.order@, archive.is_visible());
}

/// A folder shows the chats that it lists and that are not archived, and no others.
/// The folder 0 shows all that are not archived, the archive all that are.
pub proof fn law_folders_show_their_chats(list: ChatList, folder: i32, at: int, id: i64)
    requires
        list.order@.contains(id),
        list.table@.contains_key(id),
        0 <= at < list.folders@.len(),
        list.folders@[at].id == folder,
        forall|i: int| 0 <= i < at ==> (#[trigger] list.folders@[i]).id != folder,
    ensures
        list.mode == SidebarMode::Dialogs(folder) && folder != 0 ==> (list.visible().contains(id)
            <==> !list.table@[id].archived && list.folders@[at].chats@.contains(id)),
        list.mode == SidebarMode::Dialogs(0) ==> (list.visible().contains(id)
            <==> !list.table@[id].archived),
        list.mode is Archived ==> (list.visible().contains(id) <==> list.table@[id].archived),
{
    lemma_filter_contains(list.order@, list.is_visible());
    lemma_folder_place(list.folders@, folder);
}

/// A folder that there is not shows nothing.
pub proof fn law_missing_folders_are_empty(list: ChatList, folder: i32, id: i64)
    requires
        folder != 0,
        list.mode == SidebarMode::Dialogs(folder),
        forall|i: int| 0 <= i < list.folders@.len() ==> (#[trigger] list.folders@[i]).id != folder,
    ensures
        !list.visible().contains(id),
{
    lemma_filter_contains(list.order@, list.is_visible());
    lemma_folder_place(list.folders@, folder);
}

/// The chats are shown in the order in which they stand in the list.
pub proof fn law_visible_chats_keep_their_order(list: ChatList, i: int, j: int) -> (places: (
    int,
    int,
))
    requires
        0 <= i < j < list.order@.len(),
        list.visible().contains(list.order@[i]),
        list.visible().contains(list.order@[j]),
    ensures
        0 <= places.0 < places.1 < list.visible().len(),
        list.visible()[places.0] == list.order@[i],
        list.visible()[places.1] == list.order@[j],
{
    lemma_filter_contains(list.order@, list.is_visible());
    lemma_kept_in_order(list.order@, list.is_visible(), i, j)
}

/// Going down selects the next chat that is shown and going up the one before, and
/// both stay at the ends. Without a chat to start from the first one is taken.
pub proof fn law_neighbors_are_next_to_each_other(list: ChatList, at: int)
    requires
        0 <= at < list.visible().len(),
        forall|i: int| 0 <= i < at ==> #[trigger] list.visible()[i] != list.visible()[at],
    ensures
        list.selected == Some(list.visible()[at]) ==> {
            &&& at + 1 < list.visible().len() ==> list.neighbor(true) == at + 1
            &&& at + 1 == list.visible().len() ==> list.neighbor(true) == at
            &&& at > 0 ==> list.neighbor(false) == at - 1
            &&& at == 0 ==> list.neighbor(false) == 0
        },
        list.selected is None ==> list.neighbor(true) == 0 && list.neighbor(false) == 0,
        list.selected is Some && !list.visible().contains(list.selected->0) ==> list.neighbor(true)
            == 0 && list.neighbor(false) == 0,
{
    lemma_first_place(list.visible(), list.visible()[at]);
    if list.selected is Some {
        lemma_first_place(list.visible(), list.selected->0);
        if first_place(list.visible(), list.selected->0) < list.visible().len() {
            assert(list.visible().contains(list.selected->0));
        }
    }
}

// -------------------------------------------------------------------- places

/// Taking a chat out leaves all others, in order.
pub proof fn law_only_one_chat_leaves(order: Seq<i64>, id: i64, others: Seq<i64>, one: i64)
    ensures
        ids_without(order, id).contains(one) <==> order.contains(one) && one != id,
        ids_outside(order, others).contains(one) <==> order.contains(one) && !others.contains(one),
        order.no_duplicates() && order.contains(id) ==> ids_without(order, id).len() == order.len()
            - 1,
        !order.contains(id) ==> ids_without(order, id) == order,
{
    lemma_filter_contains(order, other_than(id));
    lemma_filter_contains(order, none_of(others));
    if !order.contains(id) {
        crate::chatlist::list::lemma_without_absent(order, id);
    }
    if order.no_duplicates() && order.contains(id) {
        let at = order.index_of(id);
        let (front, back) = (order.take(at), order.skip(at + 1));
        let keep = other_than(id);
        assert(order =~= front + seq![id] + back);
        Seq::filter_distributes_over_add(front + seq![id], back, keep);
        Seq::filter_distributes_over_add(front, seq![id], keep);
        assert(!front.contains(id)) by {
            if front.contains(id) {
                assert(order[front.index_of(id)] == order[at]);
            }
        }
        assert(!back.contains(id)) by {
            if back.contains(id) {
                assert(order[at + 1 + back.index_of(id)] == order[at]);
            }
        }
        crate::chatlist::list::lemma_without_absent(front, id);
        crate::chatlist::list::lemma_without_absent(back, id);
        assert(seq![id].filter(keep).len() == 0) by {
            reveal(Seq::filter);
            reveal_with_fuel(Seq::filter, 2);
            assert(seq![id].drop_last() =~= Seq::<i64>::empty());
        }
    }
}

/// A chat with news moves up to the place behind the chats that are not Telegram's,
/// and one of those stays where it is among them.
pub proof fn law_news_move_a_chat_up(virtual_order: Seq<i64>, id: i64)
    ensures
        !virtual_order.contains(id) ==> front_of(virtual_order, id) == virtual_order.len(),
        virtual_order.contains(id) ==> 0 <= front_of(virtual_order, id) < virtual_order.len()
            && virtual_order[front_of(virtual_order, id)] == id,
        forall|i: int|
            0 <= i < front_of(virtual_order, id) && i < virtual_order.len()
                ==> #[trigger] virtual_order[i] != id,
{
    lemma_first_place(virtual_order, id);
    if virtual_order.contains(id) {
        assert(virtual_order[virtual_order.index_of(id)] == id);
    }
}

/// News change a chat's preview, time and count. All else that is known of it is
/// kept, its title too where the news bring none.
pub proof fn law_news_keep_what_is_known(
    before: Map<i64, ChatSummary>,
    after: ChatSummary,
    id: i64,
    title: Seq<char>,
    preview: Seq<char>,
    time: Option<Stamp>,
    unread: UnreadUpdate,
    unknown_title: Seq<char>,
)
    requires
        upserted(before, after, id, title, preview, time, unread, unknown_title),
    ensures
        after.id == id,
        after.last_message@ == preview,
        after.last_time == time,
        trimmed(title).len() > 0 ==> after.title@ == title,
        before.contains_key(id) ==> {
            let known = before[id];
            &&& trimmed(title).len() == 0 ==> after.title@ == known.title@
            &&& after.kind == known.kind
            &&& after.username == known.username
            &&& after.archived == known.archived
            &&& after.muted == known.muted
            &&& after.pinned == known.pinned
            &&& after.draft == known.draft
            &&& after.mentions == known.mentions
            &&& after.unread_mark == known.unread_mark
            &&& after.forum == known.forum
            &&& after.has_photo == known.has_photo
            &&& after.last_sender == known.last_sender
            &&& after.last_outgoing == known.last_outgoing
            &&& after.last_msg_id == known.last_msg_id
            &&& after.presence == known.presence
            &&& after.read_outbox_max_id == known.read_outbox_max_id
        },
        !before.contains_key(id) ==> {
            &&& trimmed(title).len() == 0 ==> after.title@ == unknown_title
            &&& after.kind == ChatKind::User
            &&& !after.archived && !after.muted && !after.pinned && !after.unread_mark
            &&& after.draft@.len() == 0
        },
        ({
            let count = if before.contains_key(id) { before[id].unread as int } else { 0int };
            match unread {
                UnreadUpdate::To(value) => after.unread as int == (if value < 0 {
                    0
                } else {
                    value as int
                }),
                UnreadUpdate::Delta(change) => after.unread as int == (if count + change < 0 {
                    0
                } else {
                    count + change
                }),
            }
        }),
{
}

/// A row that is not Telegram's becomes a bot's chat of which nothing else is known.
pub proof fn law_virtual_rows_become_bots(chat: ChatSummary, row: VirtualRow)
    requires
        made_of(chat, row),
    ensures
        chat.id == row.id,
        chat.title == row.title,
        chat.last_message == row.preview,
        chat.kind == ChatKind::Bot,
        chat.unread == 0 && !chat.unread_mark && !chat.archived && !chat.muted && !chat.pinned,
{
}

/// A chat that has something unread here is taken as the server has it.
pub proof fn law_unread_chats_follow_the_server(
    table: Map<i64, ChatSummary>,
    chat: ChatSummary,
)
    requires
        !table.contains_key(chat.id) || table[chat.id].unread != 0 || table[chat.id].unread_mark,
    ensures
        kept_read(table, chat) == chat,
{
}

// --------------------------------------------------------------------- counts

/// The badge shows a mark as one, and more only where there is more.
pub proof fn law_badges_count_marks(chat: ChatSummary)
    ensures
        badge(chat) >= 0,
        badge(chat) >= chat.unread,
        chat.unread_mark ==> badge(chat) >= 1,
        chat.unread_mark && chat.unread <= 1 ==> badge(chat) == 1,
        !chat.unread_mark && chat.unread >= 0 ==> badge(chat) == chat.unread,
        chat.unread >= 1 ==> badge(chat) == chat.unread,
        !chat.unread_mark && chat.unread <= 0 ==> badge(chat) == 0,
{
}

/// A count never falls below nothing, and is set or changed by what is said.
pub proof fn law_counts_stay_above_nothing(current: i32, value: i32)
    ensures
        updated_unread(current, UnreadUpdate::To(value)) >= 0,
        updated_unread(current, UnreadUpdate::Delta(value)) >= 0,
        value >= 0 ==> updated_unread(current, UnreadUpdate::To(value)) == value,
        value < 0 ==> updated_unread(current, UnreadUpdate::To(value)) == 0,
        current + value >= 0 ==> updated_unread(current, UnreadUpdate::Delta(value)) == current
            + value,
        current + value < 0 ==> updated_unread(current, UnreadUpdate::Delta(value)) == 0,
{
}

/// One more chat adds its badge to the folders that hold it and one to the archive
/// if it is archived. Folder 0 holds all chats.
pub proof fn law_chats_are_counted(chats: Seq<ChatSummary>, chat: ChatSummary, folder: Folder)
    ensures
        unread_in(Seq::empty(), folder) == 0,
        archived_in(Seq::empty()) == 0,
        folder.id == 0 || folder.chats@.contains(chat.id) ==> unread_in(chats.push(chat), folder)
            == unread_in(chats, folder) + badge(chat),
        folder.id != 0 && !folder.chats@.contains(chat.id) ==> unread_in(chats.push(chat), folder)
            == unread_in(chats, folder),
        chat.archived ==> archived_in(chats.push(chat)) == archived_in(chats) + 1,
        !chat.archived ==> archived_in(chats.push(chat)) == archived_in(chats),
{
    assert(chats.push(chat).drop_last() =~= chats);
}

/// The button of the archive stands among the dialogs while something is archived
/// and the list has its full width, and says how much. The bar of folders stands
/// where there are folders.
pub proof fn law_bars_follow_the_list(
    bars: Bars,
    mode: SidebarMode,
    archived: nat,
    folders: nat,
    active: i32,
)
    requires
        archived <= usize::MAX,
    ensures
        mode is Dialogs ==> (bars_filled(bars, mode, archived).archived_button <==> archived > 0
            && !bars.collapsed),
        mode is Archived ==> !bars_filled(bars, mode, archived).archived_button,
        mode !is Search ==> bars_filled(bars, mode, archived).archived_count == archived
            && bars_filled(bars, mode, archived).page == Page::Dialogs,
        mode is Search ==> bars_filled(bars, mode, archived).page == Page::Search,
        bars_tabbed(bars, mode, folders, active).folder_bar <==> folders > 0 && !bars.collapsed
            && mode is Dialogs,
        bars_tabbed(bars, mode, folders, active).active_folder == active,
{
}

// --------------------------------------------------------------------- search

proof fn lemma_at_signs(text: Seq<char>) -> (at: int)
    ensures
        stands_at(text, without_at_signs(text), at),
        at >= 0,
    decreases text.len(),
{
    if text.len() > 0 && text[0] == '@' {
        let rest = text.drop_first();
        let at = lemma_at_signs(rest);
        let name = without_at_signs(rest);
        assert(text.subrange(at + 1, at + 1 + name.len()) =~= rest.subrange(at, at + name.len()));
        at + 1
    } else {
        assert(text.subrange(0, text.len() as int) =~= text);
        0
    }
}

/// Signs in front of a name are left off, all of them and nothing else.
pub proof fn law_at_signs_are_left_off(text: Seq<char>)
    ensures
        without_at_signs(text).len() > 0 ==> without_at_signs(text)[0] != '@',
        without_at_signs(seq!['@'] + text) == without_at_signs(text),
        text.len() > 0 && text[0] != '@' ==> without_at_signs(text) == text,
    decreases text.len(),
{
    assert((seq!['@'] + text).drop_first() =~= text);
    if text.len() > 0 && text[0] == '@' {
        law_at_signs_are_left_off(text.drop_first());
    }
}

proof fn lemma_known_chats(list: ChatList, id: i64)
    requires
        list.well_formed(),
        list.table@.contains_key(id),
    ensures
        list.in_order().contains(list.table@[id]),
{
    let known = |one: i64| list.table@.contains_key(one);
    lemma_kept(list.order@, known);
    assert(list.order@.contains(id));
    assert(list.known_ids() == list.order@.filter(known));
    assert(list.known_ids().contains(id));
    let at = list.known_ids().index_of(id);
    assert(list.in_order()[at] == list.table@[id]);
}

/// A known chat is found by its username, with the sign in front or without,
/// whatever its title is.
pub proof fn law_usernames_are_found(list: ChatList, id: i64, name: Seq<char>)
    requires
        list.well_formed(),
        list.table@.contains_key(id),
        list.table@[id].username@ == name,
    ensures
        list.local_matches(name).contains(list.table@[id]),
        lowercased(seq!['@'] + name) == seq!['@'] + lowercased(name) ==> list.local_matches(
            seq!['@'] + name,
        ).contains(list.table@[id]),
{
    let chat = list.table@[id];
    lemma_known_chats(list, id);
    lemma_kept(list.in_order(), found_by(name));
    lemma_kept(list.in_order(), found_by(seq!['@'] + name));
    let at = lemma_at_signs(lowercased(name));
    law_at_signs_are_left_off(lowercased(name));
    assert(contains_text(lowercased(chat.username@), without_at_signs(lowercased(name))));
}

/// A search finds the known chats whose title holds the query and those whose
/// username holds it, and no others. Case makes no difference.
pub proof fn law_searches_find_titles_and_usernames(list: ChatList, id: i64, query: Seq<char>)
    requires
        list.well_formed(),
        list.table@.contains_key(id),
    ensures
        contains_text(lowercased(list.table@[id].title@), lowercased(query)) ==> list.local_matches(
            query,
        ).contains(list.table@[id]),
        contains_text(lowercased(list.table@[id].username@), lowercased(query))
            && lowercased(query).len() > 0 && lowercased(query)[0] != '@' ==> list.local_matches(
            query,
        ).contains(list.table@[id]),
        list.local_matches(query).contains(list.table@[id]) && lowercased(query).len() > 0
            && lowercased(query)[0] != '@' ==> contains_text(
            lowercased(list.table@[id].title@),
            lowercased(query),
        ) || contains_text(lowercased(list.table@[id].username@), lowercased(query)),
        forall|other: Seq<char>|
            lowercased(other) == lowercased(query) ==> #[trigger] list.local_matches(other)
                == list.local_matches(query),
{
    lemma_known_chats(list, id);
    lemma_kept(list.in_order(), found_by(query));
    law_at_signs_are_left_off(lowercased(query));
    assert forall|other: Seq<char>|
        lowercased(other) == lowercased(query) implies #[trigger] list.local_matches(other)
        == list.local_matches(query) by {
        assert(found_by(other) =~= found_by(query));
    }
}

/// A search finds only chats that the list knows.
pub proof fn law_found_chats_are_known(list: ChatList, query: Seq<char>, chat: ChatSummary)
    requires
        list.local_matches(query).contains(chat),
    ensures
        exists|id: i64|
            list.order@.contains(id) && list.table@.contains_key(id) && #[trigger] list.table@[id]
                == chat,
{
    lemma_kept(list.in_order(), found_by(query));
    let at = list.in_order().index_of(chat);
    let known = |one: i64| list.table@.contains_key(one);
    lemma_kept(list.order@, known);
    assert(list.known_ids() == list.order@.filter(known));
    let id = list.known_ids()[at];
    assert(list.known_ids().contains(id));
    assert(list.table@[id] == chat);
}

/// What the server found follows what was found here, each chat once, and nothing
/// else comes in.
pub proof fn law_remote_chats_follow_local_ones(
    local: Seq<ChatSummary>,
    remote: Seq<ChatSummary>,
    given: int,
)
    requires
        0 <= given <= remote.len(),
    ensures
        local.is_prefix_of(with_remote(local, remote, given)),
        forall|i: int|
            local.len() <= i < with_remote(local, remote, given).len() ==> exists|j: int|
                0 <= j < given && #[trigger] remote[j] == #[trigger] with_remote(
                    local,
                    remote,
                    given,
                )[i],
        forall|j: int|
            0 <= j < given ==> exists|i: int|
                0 <= i < with_remote(local, remote, given).len() && (#[trigger] with_remote(
                    local,
                    remote,
                    given,
                )[i]).id == (#[trigger] remote[j]).id,
    decreases given,
{
    let all = with_remote(local, remote, given);
    if given > 0 {
        law_remote_chats_follow_local_ones(local, remote, given - 1);
        let earlier = with_remote(local, remote, given - 1);
        let chat = remote[given - 1];
        assert(local.is_prefix_of(all)) by {
            assert(all.subrange(0, local.len() as int) =~= earlier.subrange(0, local.len() as int));
        }
        assert forall|i: int| local.len() <= i < all.len() implies exists|j: int|
            0 <= j < given && #[trigger] remote[j] == #[trigger] all[i] by {
            if i < earlier.len() {
                assert(all[i] == earlier[i]);
                let j = choose|j: int| 0 <= j < given - 1 && #[trigger] remote[j] == earlier[i];
                assert(remote[j] == all[i]);
            } else {
                assert(remote[given - 1] == all[i]);
            }
        }
        assert forall|j: int| 0 <= j < given implies exists|i: int|
            0 <= i < all.len() && (#[trigger] all[i]).id == (#[trigger] remote[j]).id by {
            if j < given - 1 {
                let i = choose|i: int|
                    0 <= i < earlier.len() && (#[trigger] earlier[i]).id == remote[j].id;
                assert(all[i] == earlier[i]);
            } else if listed(earlier, chat.id) {
                let at = choose|at: int|
                    #[trigger] crate::chatlist::table::stands_at(earlier, chat.id, at);
                assert(all[at].id == remote[j].id);
            } else {
                assert(all[earlier.len() as int].id == remote[j].id);
            }
        }
    } else {
        assert(local.is_prefix_of(all));
    }
}

// ----------------------------------------------------------------------- rows

/// The time of a chat's last message is told as its hour today, as its day within
/// the same week and as its date before that.
pub proof fn law_times_are_told_by_their_age(at: Stamp, now: Stamp)
    ensures
        time_column(None, now) == Seq::<char>::empty(),
        at.calendar() == now.calendar() ==> time_column(Some(at), now) == two_digits(at.hour())
            + ":"@ + two_digits(at.minute()),
        at.calendar() != now.calendar() && (at.local_day() + 3) / 7 == (now.local_day() + 3) / 7
            ==> time_column(Some(at), now) == crate::clock::short_weekday_name(at.local_day()),
        at.calendar() != now.calendar() && at.local_day() <= now.local_day() - 7 ==> time_column(
            Some(at),
            now,
        ) == two_digits(at.calendar().day()) + "."@ + two_digits(at.calendar().month()) + "."@
            + two_digits(at.calendar().year() % 100),
{
}

/// What a row says of its chat.
pub proof fn law_rows_tell_of_their_chat(
    plan: ChatRowPlan,
    chat: ChatSummary,
    selected: bool,
    collapsed: bool,
    now: Stamp,
)
    requires
        plan.shows(chat, selected, collapsed, now),
    ensures
        trimmed(chat.title@).len() > 0 ==> plan.title@ == chat.title@,
        trimmed(chat.title@).len() == 0 ==> plan.title@ == "Unknown"@,
        plan.heading@ == (if chat.forum {
            crate::icons::TOPIC@ + " "@ + plan.title@
        } else {
            plan.title@
        }),
        plan.muted == chat.muted,
        plan.draft <==> chat.draft@.len() > 0 && !selected,
        plan.draft ==> plan.prefix@ == "Draft: "@ && plan.preview@ == chat.draft@,
        !plan.draft ==> plan.preview@ == chat.last_message@,
        !plan.draft && chat.last_sender@.len() > 0 ==> plan.prefix@ == chat.last_sender@ + ": "@,
        !plan.draft && chat.last_sender@.len() == 0 ==> plan.prefix@ == Seq::<char>::empty(),
        plan.unread_visible <==> chat.unread > 0 || chat.unread_mark,
        chat.unread > 0 ==> plan.unread == chat.unread,
        plan.unread_dot <==> collapsed && (chat.unread > 0 || chat.unread_mark),
        plan.mentions <==> chat.mentions > 0,
        plan.pin <==> chat.pinned && chat.unread <= 0 && !chat.unread_mark,
        plan.ticks <==> chat.last_outgoing && !chat.pinned && chat.unread <= 0 && !chat.unread_mark,
        plan.read <==> chat.read_outbox_max_id >= chat.last_msg_id,
        chat.last_time is None ==> plan.time@ == Seq::<char>::empty(),
        plan.time@ == time_column(chat.last_time, now),
        plan.initials@ == initials_of(plan.title@),
{
}

/// A message that was found is headed by its chat, and by its sender where that is
/// someone else.
pub proof fn law_found_messages_are_headed(msg: Msg)
    ensures
        msg.sender@.len() == 0 ==> found_heading(msg) == msg.chat_title@,
        msg.sender@ == msg.chat_title@ ==> found_heading(msg) == msg.chat_title@,
        msg.sender@.len() > 0 && msg.sender@ != msg.chat_title@ ==> found_heading(msg)
            == msg.chat_title@ + " · "@ + msg.sender@,
{
}

// ---------------------------------------------------------------------- modes

/// A new search forgets what the last one found and asks the server from three
/// characters on.
pub proof fn law_searches_begin_anew(before: SearchData, after: SearchData, query: Seq<char>)
    requires
        after.begun(before, query),
    ensures
        after.generation != before.generation,
        after.query@ == query,
        after.chats_loading <==> query.len() >= 3,
        after.messages_loading <==> query.len() >= 3,
        after.chats_error is None && after.messages_error is None,
        after.remote_chats@.len() == 0 && after.messages@.len() == 0,
        !after.answers(query, before.generation),
        after.answers(query, after.generation),
{
}

/// An answer is taken only for the query and the search that asked.
pub proof fn law_answers_are_for_their_query(data: SearchData, query: Seq<char>, generation: u64)
    ensures
        data.answers(query, generation) <==> data.query@ == query && data.generation == generation,
{
}

/// A search shows what it finds, and goes back to what was shown before it when its
/// query is emptied. The chats themselves stay.
pub proof fn law_searches_go_back(before: ChatList, after: ChatList, query: Seq<char>)
    requires
        searched(before, after, query),
    ensures
        query.len() == 0 ==> after.mode == before.prior_mode,
        query.len() == 0 ==> after.bars.page == Page::Dialogs && (after.bars.folder_bar
            <==> !before.bars.collapsed && before.folders@.len() > 0 && before.prior_mode
            is Dialogs),
        query.len() > 0 ==> after.mode is Search && after.mode->Search_0@ == query,
        query.len() > 0 ==> after.bars.page == Page::Search && !after.bars.folder_bar,
        query.len() > 0 && !(before.mode is Search) ==> after.prior_mode == before.mode,
        query.len() > 0 && before.mode is Search ==> after.prior_mode == before.prior_mode,
        after.table == before.table && after.order == before.order && after.folders
            == before.folders && after.selected == before.selected,
        after.bars.archived_button == before.bars.archived_button && after.bars.search
            == before.bars.search,
{
}

/// The sections of a search say that they wait, what failed, or that nothing was
/// found.
pub proof fn law_sections_say_how_far_they_are(
    data: SearchData,
    shown: int,
    chats: SectionState,
    messages: SectionState,
)
    requires
        chats_state(data, shown, chats),
        messages_state(data, messages),
    ensures
        data.chats_loading <==> chats is Loading,
        !data.chats_loading && data.chats_error is Some ==> chats == SectionState::Failed(
            data.chats_error->0,
        ),
        !data.chats_loading && data.chats_error is None && shown == 0 ==> chats
            == SectionState::Note("No results"),
        !data.chats_loading && data.chats_error is None && shown != 0 ==> chats is Done,
        data.messages_loading <==> messages is Loading,
        !data.messages_loading && data.messages_error is Some ==> messages == SectionState::Failed(
            data.messages_error->0,
        ),
        !data.messages_loading && data.messages_error is None && data.messages@.len() == 0
            && data.query@.len() < 3 ==> messages == SectionState::Note(
            "Type 3 characters to search messages",
        ),
        !data.messages_loading && data.messages_error is None && data.messages@.len() == 0
            && data.query@.len() >= 3 ==> messages == SectionState::Note("No results"),
        !data.messages_loading && data.messages_error is None && data.messages@.len() > 0
            ==> messages is Done,
{
}

/// The chats that only the server knows are counted.
pub proof fn law_unknown_chats_are_counted(
    table: Map<i64, ChatSummary>,
    remote: Seq<ChatSummary>,
    chat: ChatSummary,
)
    ensures
        unknown_in(table, Seq::empty()) == 0,
        table.contains_key(chat.id) ==> unknown_in(table, remote.push(chat)) == unknown_in(
            table,
            remote,
        ),
        !table.contains_key(chat.id) ==> unknown_in(table, remote.push(chat)) == unknown_in(
            table,
            remote,
        ) + 1,
{
    assert(remote.push(chat).drop_last() =~= remote);
}

/// Opening the archive hides the folders and offers the way back, to the folder that
/// was open.
pub proof fn law_archive_opens_and_closes(before: ChatList, archive: ChatList, after: ChatList)
    requires
        archive_shown(before, archive),
        archive_left(archive, after),
    ensures
        archive.mode is Archived,
        archive.bars.back_button && !archive.bars.menu_button && !archive.bars.folder_bar,
        archive.bars.archived_title <==> !before.bars.collapsed,
        archive.bars.search <==> !before.bars.collapsed,
        after.bars.search <==> !before.bars.collapsed,
        archive.bars.page == Page::Dialogs && after.bars.page == Page::Dialogs,
        after.bars.menu_button && !after.bars.back_button && !after.bars.archived_title,
        after.bars.folder_bar <==> !before.bars.collapsed && before.folders@.len() > 0,
        before.prior_mode matches SidebarMode::Dialogs(folder) ==> after.mode
            == SidebarMode::Dialogs(folder),
        !(before.prior_mode is Dialogs) ==> after.mode == SidebarMode::Dialogs(0),
        after.table == before.table && after.order == before.order && after.selected
            == before.selected,
{
}

/// The open folder is the one that is shown, or that was shown before the archive or
/// the search was opened.
pub proof fn law_open_folder_is_remembered(list: ChatList)
    ensures
        list.mode matches SidebarMode::Dialogs(folder) ==> list.current_folder() == folder,
        !(list.mode is Dialogs) ==> (list.prior_mode matches SidebarMode::Dialogs(folder)
            ==> list.current_folder() == folder),
        !(list.mode is Dialogs) && !(list.prior_mode is Dialogs) ==> list.current_folder() == 0,
        list.prior_mode matches SidebarMode::Dialogs(folder) ==> list.prior_folder() == folder,
{
}

/// A tab shows its folder, what is unread in it, and whether it is open.
pub proof fn law_tabs_show_their_folder(list: ChatList, tab: FolderTab, folder: Folder)
    requires
        list.tab_shows(tab, folder),
    ensures
        tab.id == folder.id,
        tab.title@ == folder.title@,
        tab.active <==> folder.id == list.bars.active_folder,
        tab.unread == unread_in(list.table.chats@, folder),
        is_all(folder) ==> folder.id == 0 && folder.title@ == "All"@,
{
}

/// The list of the server is taken as it is, but that what was read here stays read.
pub proof fn law_server_list_is_taken(
    table: Map<i64, ChatSummary>,
    chats: Seq<ChatSummary>,
    given: int,
    i: int,
)
    requires
        0 <= i < given <= chats.len(),
        forall|a: int, b: int|
            0 <= a < b < chats.len() ==> (#[trigger] chats[a]).id != (#[trigger] chats[b]).id,
    ensures
        taken_in(table, chats, given).contains_key(chats[i].id),
        table.contains_key(chats[i].id) && table[chats[i].id].unread == 0
            && !table[chats[i].id].unread_mark ==> taken_in(table, chats, given)[chats[i].id]
            == (ChatSummary { unread: 0, ..chats[i] }),
        !table.contains_key(chats[i].id) || table[chats[i].id].unread != 0
            || table[chats[i].id].unread_mark ==> taken_in(table, chats, given)[chats[i].id]
            == chats[i],
        forall|id: i64|
            (forall|j: int| 0 <= j < given ==> (#[trigger] chats[j]).id != id) ==> (
            #[trigger] taken_in(table, chats, given).contains_key(id) <==> table.contains_key(id))
                && (table.contains_key(id) ==> taken_in(table, chats, given)[id] == table[id]),
    decreases given,
{
    lemma_untouched(table, chats, given);
    lemma_untouched(table, chats, given - 1);
    let earlier = taken_in(table, chats, given - 1);
    let last = chats[given - 1];
    if i == given - 1 {
        assert forall|j: int| 0 <= j < given - 1 implies (#[trigger] chats[j]).id != last.id by {
            assert(chats[j].id != chats[given - 1].id);
        }
        assert(earlier.contains_key(last.id) <==> table.contains_key(last.id));
    } else {
        law_server_list_is_taken(table, chats, given - 1, i);
        assert(chats[i].id != chats[given - 1].id);
    }
}

proof fn lemma_untouched(table: Map<i64, ChatSummary>, chats: Seq<ChatSummary>, given: int)
    requires
        0 <= given <= chats.len(),
    ensures
        forall|id: i64|
            (forall|j: int| 0 <= j < given ==> (#[trigger] chats[j]).id != id) ==> (
            #[trigger] taken_in(table, chats, given).contains_key(id) <==> table.contains_key(id))
                && (table.contains_key(id) ==> taken_in(table, chats, given)[id] == table[id]),
    decreases given,
{
    if given > 0 {
        lemma_untouched(table, chats, given - 1);
        let earlier = taken_in(table, chats, given - 1);
        let after = taken_in(table, chats, given);
        assert forall|id: i64|
            (forall|j: int| 0 <= j < given ==> (#[trigger] chats[j]).id != id) implies (
        #[trigger] after.contains_key(id) <==> table.contains_key(id)) && (table.contains_key(id)
            ==> after[id] == table[id]) by {
            assert(chats[given - 1].id != id);
            assert(earlier.contains_key(id) <==> table.contains_key(id));
        }
    }
}

/// Lists of ids have the id of each chat at its place.
pub proof fn law_ids_stand_at_their_place(chats: Seq<ChatSummary>, rows: Seq<VirtualRow>, i: int)
    ensures
        ids_of(chats).len() == chats.len(),
        row_ids(rows).len() == rows.len(),
        0 <= i < chats.len() ==> ids_of(chats)[i] == chats[i].id,
        0 <= i < rows.len() ==> row_ids(rows)[i] == rows[i].id,
{
}

/// A table leads from an id to the chat that has it.
pub proof fn law_tables_lead_to_their_chats(chats: Seq<ChatSummary>, i: int, id: i64)
    requires
        forall|a: int, b: int|
            0 <= a < b < chats.len() ==> (#[trigger] chats[a]).id != (#[trigger] chats[b]).id,
    ensures
        0 <= i < chats.len() ==> by_id(chats).contains_key(chats[i].id) && by_id(chats)[chats[i].id]
            == chats[i],
        by_id(chats).contains_key(id) ==> exists|j: int|
            0 <= j < chats.len() && (#[trigger] chats[j]).id == id,
{
    if 0 <= i < chats.len() {
        let one = chats[i].id;
        assert(crate::chatlist::table::stands_at(chats, one, i));
        let at = choose|at: int| #[trigger] crate::chatlist::table::stands_at(chats, one, at);
        if at < i {
            assert(chats[at].id != chats[i].id);
        } else if i < at {
            assert(chats[i].id != chats[at].id);
        }
    }
    if by_id(chats).contains_key(id) {
        let at = choose|at: int| #[trigger] crate::chatlist::table::stands_at(chats, id, at);
        assert(chats[at].id == id);
    }
}

/// The menu of a chat turns around what the chat is set to. What destroys something
/// comes last and is marked.
pub proof fn law_chat_menus_turn_settings_around(chat: ChatSummary)
    ensures
        ({
            let items = chat_items(chat);
            let n = items.len() as int;
            let unread = chat.unread > 0 || chat.unread_mark;
            &&& items[0] == ("Open"@, ChatAction::Open, false)
            &&& unread ==> items[1] == ("Mark as read"@, ChatAction::MarkUnread(false), false)
            &&& !unread ==> items[1] == ("Mark as unread"@, ChatAction::MarkUnread(true), false)
            &&& chat.pinned ==> items[2] == ("Unpin"@, ChatAction::Pin(false), false)
            &&& !chat.pinned ==> items[2] == ("Pin"@, ChatAction::Pin(true), false)
            &&& chat.muted ==> n == 7 && items[3] == ("Unmute"@, ChatAction::Mute(
                MuteMode::Unmute,
            ), false)
            &&& !chat.muted ==> n == 10 && items[3] == ("Mute for 1 hour"@, ChatAction::Mute(
                MuteMode::Hours(1),
            ), false) && items[4] == ("Mute for 8 hours"@, ChatAction::Mute(
                MuteMode::Hours(8),
            ), false) && items[5] == ("Mute for 2 days"@, ChatAction::Mute(
                MuteMode::Hours(48),
            ), false) && items[6] == ("Mute forever"@, ChatAction::Mute(MuteMode::Forever), false)
            &&& chat.archived ==> items[n - 3] == ("Unarchive"@, ChatAction::Archive(false), false)
            &&& !chat.archived ==> items[n - 3] == ("Archive"@, ChatAction::Archive(true), false)
            &&& items[n - 2] == ("Clear history"@, ChatAction::ClearHistory, true)
            &&& items[n - 1] == ("Delete chat"@, ChatAction::Delete, true)
        }),
{
}

/// What a search finds stands in the order of the list.
pub proof fn law_matches_keep_their_order(list: ChatList, query: Seq<char>, i: int, j: int) -> (
    places: (int, int))
    requires
        0 <= i < j < list.order@.len(),
        list.table@.contains_key(list.order@[i]),
        list.table@.contains_key(list.order@[j]),
        list.local_matches(query).contains(list.table@[list.order@[i]]),
        list.local_matches(query).contains(list.table@[list.order@[j]]),
    ensures
        0 <= places.0 < places.1 < list.local_matches(query).len(),
        list.local_matches(query)[places.0] == list.table@[list.order@[i]],
        list.local_matches(query)[places.1] == list.table@[list.order@[j]],
{
    let known = |id: i64| list.table@.contains_key(id);
    lemma_kept(list.in_order(), found_by(query));
    assert(list.known_ids() == list.order@.filter(known));
    let (p, q) = lemma_kept_in_order(list.order@, known, i, j);
    assert(list.in_order()[p] == list.table@[list.order@[i]]);
    assert(list.in_order()[q] == list.table@[list.order@[j]]);
    lemma_kept_in_order(list.in_order(), found_by(query), p, q)
}

/// No chat is shown twice that stands in the list once.
pub proof fn law_visible_chats_are_shown_once(list: ChatList)
    requires
        list.order@.no_duplicates(),
    ensures
        list.visible().no_duplicates(),
        list.visible().len() <= list.order@.len(),
{
    list.order@.lemma_filter_len(list.is_visible());
    lemma_once(list.order@, list.is_visible());
}

proof fn lemma_once(order: Seq<i64>, keep: spec_fn(i64) -> bool)
    requires
        order.no_duplicates(),
    ensures
        order.filter(keep).no_duplicates(),
    decreases order.len(),
{
    reveal(Seq::filter);
    if order.len() > 0 {
        let rest = order.drop_last();
        assert forall|i: int, j: int| 0 <= i < rest.len() && 0 <= j < rest.len() && i != j implies rest[i]
            != rest[j] by {
            assert(rest[i] == order[i] && rest[j] == order[j]);
        }
        lemma_once(rest, keep);
        lemma_kept(rest, keep);
        let kept = order.filter(keep);
        let earlier = rest.filter(keep);
        if keep(order.last()) {
            assert(kept == earlier.push(order.last()));
            assert(!earlier.contains(order.last())) by {
                if earlier.contains(order.last()) {
                    let p = rest.index_of(order.last());
                    assert(order[p] == order[order.len() - 1]);
                }
            }
            assert forall|i: int, j: int|
                0 <= i < kept.len() && 0 <= j < kept.len() && i != j implies kept[i] != kept[j] by {
                if i < earlier.len() && j < earlier.len() {
                    assert(earlier[i] != earlier[j]);
                } else if i < earlier.len() {
                    assert(earlier.contains(earlier[i]));
                } else {
                    assert(earlier.contains(earlier[j]));
                }
            }
        }
    }
}

/// In a sound list every known chat has a place, and all that has a place is known or
/// not Telegram's.
pub proof fn law_known_chats_have_a_place(list: ChatList, id: i64)
    requires
        list.well_formed(),
    ensures
        list.table@.contains_key(id) ==> list.order@.contains(id),
        list.order@.contains(id) && !list.virtual_order@.contains(id) ==> list.table@.contains_key(
            id,
        ),
        list.mode is Dialogs ==> list.prior_mode == list.mode,
        forall|i: int, j: int|
            0 <= i < j < list.table.chats@.len() ==> (#[trigger] list.table.chats@[i]).id != (
            #[trigger] list.table.chats@[j]).id,
{
}

/// A search that was not begun waits for nothing.
pub proof fn law_idle_searches_wait_for_nothing(data: SearchData)
    requires
        data.idle(),
    ensures
        data.generation == 0 && data.query@.len() == 0,
        !data.chats_loading && !data.messages_loading,
        data.chats_error is None && data.messages_error is None,
        data.remote_chats@.len() == 0 && data.messages@.len() == 0,
{
}

/// Of a blank chat nothing is known: it has no name to be found by, nothing unread and
/// no draft, and stands among the dialogs.
pub proof fn law_blank_chats_are_plain(chat: ChatSummary)
    requires
        chat.blank(),
    ensures
        chat.username@.len() == 0 && chat.draft@.len() == 0 && chat.last_sender@.len() == 0,
        badge(chat) == 0 && chat.mentions == 0,
        !chat.archived && !chat.pinned && !chat.muted && !chat.forum && !chat.has_photo,
        chat.last_time is None && chat.last_msg_id == 0 && !chat.last_outgoing,
        chat.presence == Presence::Unknown && chat.read_outbox_max_id == 0,
{
}

/// Of rows with the same id the last one counts.
pub proof fn law_last_row_counts(rows: Seq<VirtualRow>, i: int, given: int)
    ensures
        is_last_row(rows, i, given) <==> forall|j: int|
            i < j < given ==> (#[trigger] rows[j]).id != rows[i].id,
        given == i + 1 ==> is_last_row(rows, i, given),
{
}

} // verus!
