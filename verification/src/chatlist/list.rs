//! The chats in their order, and what is shown of them.

use vstd::prelude::*;

use crate::chatlist::row::badge;
use crate::chatlist::search::SearchData;
use crate::chatlist::table::{known, ChatTable};
use crate::tg::{ChatSummary, Folder};

verus! {

/// What the list of chats shows.
#[derive(Debug, PartialEq, Eq)]
pub enum SidebarMode {
    /// The chats of a folder, or all chats for the folder 0.
    Dialogs(i32),
    Archived,
    /// What was found for a query.
    Search(String),
}

impl Clone for SidebarMode {
    fn clone(&self) -> (copy: Self)
        ensures
            copy == *self,
    {
        match self {
            SidebarMode::Dialogs(folder) => SidebarMode::Dialogs(*folder),
            SidebarMode::Archived => SidebarMode::Archived,
            SidebarMode::Search(query) => SidebarMode::Search(query.clone()),
        }
    }
}

/// Which page the list is on.
#[derive(Debug, Clone, Copy, PartialEq, Eq, Structural)]
pub enum Page {
    Dialogs,
    Search,
}

/// What stands around the list.
#[derive(Debug, Clone, Copy, PartialEq, Eq, Structural)]
pub struct Bars {
    pub collapsed: bool,
    pub menu_button: bool,
    pub back_button: bool,
    pub archived_title: bool,
    pub search: bool,
    pub folder_bar: bool,
    /// Which folder's tab is marked.
    pub active_folder: i32,
    pub archived_button: bool,
    pub archived_count: usize,
    pub page: Page,
}

/// The list of chats.
pub struct ChatList {
    pub table: ChatTable,
    pub order: Vec<i64>,
    /// The chats that are not Telegram's, which come first.
    pub virtual_order: Vec<i64>,
    pub folders: Vec<Folder>,
    pub selected: Option<i64>,
    pub mode: SidebarMode,
    pub prior_mode: SidebarMode,
    pub bars: Bars,
    pub show_avatars: bool,
    pub search: SearchData,
}

/// How many chats are archived.
pub open spec fn archived_in(chats: Seq<ChatSummary>) -> nat
    decreases chats.len(),
{
    if chats.len() == 0 {
        0
    } else {
        archived_in(chats.drop_last()) + (if chats.last().archived { 1nat } else { 0nat })
    }
}

/// Whether a folder holds a chat. The folder 0 holds all.
pub open spec fn in_folder(folder: Folder, id: i64) -> bool {
    folder.id == 0 || folder.chats@.contains(id)
}

/// How many messages of a folder are unread.
pub open spec fn unread_in(chats: Seq<ChatSummary>, folder: Folder) -> int
    decreases chats.len(),
{
    if chats.len() == 0 {
        0
    } else {
        unread_in(chats.drop_last(), folder) + (if in_folder(folder, chats.last().id) {
            badge(chats.last())
        } else {
            0
        })
    }
}

/// The ids of some chats.
pub open spec fn ids_of(chats: Seq<ChatSummary>) -> Seq<i64> {
    chats.map_values(|chat: ChatSummary| chat.id)
}

/// A chat as it is taken in: what was read here stays read, though the server may
/// not know of it yet.
pub open spec fn kept_read(table: Map<i64, ChatSummary>, chat: ChatSummary) -> ChatSummary {
    if table.contains_key(chat.id) && table[chat.id].unread == 0 && !table[chat.id].unread_mark {
        ChatSummary { unread: 0, ..chat }
    } else {
        chat
    }
}

/// The table with the first `given` of some chats.
pub open spec fn taken_in(
    table: Map<i64, ChatSummary>,
    chats: Seq<ChatSummary>,
    given: int,
) -> Map<i64, ChatSummary>
    decreases given,
{
    if given <= 0 {
        table
    } else {
        let earlier = taken_in(table, chats, given - 1);
        let chat = chats[given - 1];
        earlier.insert(chat.id, kept_read(earlier, chat))
    }
}

/// Whether an id is not the given one.
pub open spec fn other_than(id: i64) -> spec_fn(i64) -> bool {
    |other: i64| other != id
}

/// The ids that are not the given one.
pub open spec fn ids_without(order: Seq<i64>, id: i64) -> Seq<i64> {
    order.filter(other_than(id))
}

/// Whether an id is not among others.
pub open spec fn none_of(others: Seq<i64>) -> spec_fn(i64) -> bool {
    |id: i64| !others.contains(id)
}

/// The ids that are not among others.
pub open spec fn ids_outside(order: Seq<i64>, others: Seq<i64>) -> Seq<i64> {
    order.filter(none_of(others))
}

/// Where an id stands first, or how many ids there are.
pub open spec fn first_place(ids: Seq<i64>, id: i64) -> int
    decreases ids.len(),
{
    if ids.len() == 0 {
        0
    } else {
        let earlier = first_place(ids.drop_last(), id);
        if earlier < ids.len() - 1 || ids.last() == id {
            earlier
        } else {
            ids.len() as int
        }
    }
}

/// Where a chat goes that has a new message: above all chats but the ones that are
/// not Telegram's, which keep their places.
pub open spec fn front_of(virtual_order: Seq<i64>, id: i64) -> int {
    first_place(virtual_order, id)
}

pub proof fn lemma_first_place(ids: Seq<i64>, id: i64)
    ensures
        0 <= first_place(ids, id) <= ids.len(),
        ids.contains(id) <==> first_place(ids, id) < ids.len(),
        first_place(ids, id) < ids.len() ==> ids[first_place(ids, id)] == id,
        forall|i: int| 0 <= i < first_place(ids, id) ==> ids[i] != id,
    decreases ids.len(),
{
    if ids.len() > 0 {
        let rest = ids.drop_last();
        lemma_first_place(rest, id);
        assert forall|i: int| 0 <= i < first_place(ids, id) implies ids[i] != id by {
            if i < rest.len() {
                assert(rest[i] == ids[i]);
            }
        }
        if first_place(ids, id) < ids.len() {
            if first_place(rest, id) < rest.len() {
                assert(rest[first_place(rest, id)] == ids[first_place(rest, id)]);
            }
            assert(ids.contains(ids[first_place(ids, id)]));
        }
    }
}

pub proof fn lemma_without_absent(ids: Seq<i64>, id: i64)
    requires
        !ids.contains(id),
    ensures
        ids_without(ids, id) == ids,
{
    assert forall|i: int| 0 <= i < ids.len() implies other_than(id)(#[trigger] ids[i]) by {
        assert(ids.contains(ids[i]));
    }
    lemma_filter_all(ids, other_than(id));
}

/// Moving a chat to the front leaves the chats that are not Telegram's in front, and
/// no other chat is lost.
pub proof fn law_moved_to_front(virtual_order: Seq<i64>, order: Seq<i64>, id: i64)
    requires
        virtual_order.is_prefix_of(order),
        virtual_order.no_duplicates(),
    ensures
        0 <= front_of(virtual_order, id) <= ids_without(order, id).len(),
        virtual_order.is_prefix_of(
            ids_without(order, id).insert(front_of(virtual_order, id), id),
        ),
        forall|other: i64| #[trigger]
            ids_without(order, id).insert(front_of(virtual_order, id), id).contains(other)
                <==> order.contains(other) || other == id,
{
    let p = front_of(virtual_order, id);
    let rest = ids_without(order, id);
    let n = virtual_order.len() as int;
    let tail = order.skip(n);
    assert(order =~= virtual_order + tail) by {
        assert(order.subrange(0, n) =~= virtual_order);
        assert forall|i: int| 0 <= i < n implies order[i] == virtual_order[i] by {
            assert(order.subrange(0, n)[i] == order[i]);
        }
    }
    lemma_first_place(virtual_order, id);
    Seq::filter_distributes_over_add(virtual_order, tail, other_than(id));
    let after = rest.insert(p, id);
    if p < n {
        let a = virtual_order.take(p);
        let b = virtual_order.skip(p + 1);
        assert(virtual_order =~= a + (seq![id] + b));
        assert(!a.contains(id));
        assert(!b.contains(id)) by {
            if b.contains(id) {
                let q = b.index_of(id);
                assert(virtual_order[p + 1 + q] == virtual_order[p]);
            }
        }
        Seq::filter_distributes_over_add(a, seq![id] + b, other_than(id));
        Seq::filter_distributes_over_add(seq![id], b, other_than(id));
        lemma_without_absent(a, id);
        lemma_without_absent(b, id);
        assert(seq![id].filter(other_than(id)) =~= Seq::<i64>::empty()) by {
            reveal_with_fuel(Seq::filter, 2);
            assert(seq![id].drop_last() =~= Seq::<i64>::empty());
        }
        assert(Seq::<i64>::empty() + b =~= b);
        assert(rest == (a + b) + tail.filter(other_than(id)));
        assert(after =~= virtual_order + tail.filter(other_than(id)));
    } else {
        lemma_without_absent(virtual_order, id);
        assert(rest == virtual_order + tail.filter(other_than(id)));
        assert(after.subrange(0, n) =~= virtual_order);
    }
    assert(after.subrange(0, n) =~= virtual_order);
    lemma_filter_contains(order, other_than(id));
    assert forall|other: i64| #[trigger] after.contains(other) <==> order.contains(other) || other == id by {
        if after.contains(other) && other != id {
            let q = after.index_of(other);
            assert(rest[if q < p { q } else { q - 1 }] == other);
            assert(rest.contains(other));
        }
        if order.contains(other) && other != id {
            assert(rest.contains(other));
            let q = rest.index_of(other);
            assert(after[if q < p { q } else { q + 1 }] == other);
        }
        assert(after[p] == id);
    }
}

/// Whether an id is in two lists put together.
pub proof fn lemma_contains_sum(left: Seq<i64>, right: Seq<i64>, id: i64)
    ensures
        (left + right).contains(id) <==> left.contains(id) || right.contains(id),
{
    let both = left + right;
    if both.contains(id) {
        let p = both.index_of(id);
        if p < left.len() {
            assert(left[p] == id);
        } else {
            assert(right[p - left.len()] == id);
        }
    }
    if left.contains(id) {
        assert(both[left.index_of(id)] == id);
    }
    if right.contains(id) {
        assert(both[left.len() + right.index_of(id)] == id);
    }
}

/// Whether an id is in a list with one more id.
pub proof fn lemma_pushed_contains(ids: Seq<i64>, last: i64, id: i64)
    ensures
        ids.push(last).contains(id) <==> ids.contains(id) || id == last,
{
    assert(ids.push(last) =~= ids + seq![last]);
    lemma_contains_sum(ids, seq![last], id);
    assert(seq![last][0] == last);
}

/// What a list holds once one more id was put into it.
pub proof fn lemma_inserted_contains(ids: Seq<i64>, at: int, one: i64, id: i64)
    requires
        0 <= at <= ids.len(),
    ensures
        ids.insert(at, one).contains(id) <==> ids.contains(id) || id == one,
{
    let after = ids.insert(at, one);
    if after.contains(id) && id != one {
        let p = after.index_of(id);
        assert(ids[if p < at { p } else { p - 1 }] == id);
    }
    if ids.contains(id) {
        let p = ids.index_of(id);
        assert(after[if p < at { p } else { p + 1 }] == id);
    }
    assert(after[at] == one);
}

/// Which chats are known once some were taken in.
pub proof fn lemma_taken_in(table: Map<i64, ChatSummary>, chats: Seq<ChatSummary>, given: int)
    requires
        0 <= given <= chats.len(),
    ensures
        forall|id: i64| #[trigger]
            taken_in(table, chats, given).contains_key(id) <==> table.contains_key(id) || ids_of(
                chats,
            ).take(given).contains(id),
    decreases given,
{
    if given > 0 {
        lemma_taken_in(table, chats, given - 1);
        let ids = ids_of(chats);
        assert(ids.take(given) =~= ids.take(given - 1).push(ids[given - 1]));
        assert forall|id: i64| #[trigger]
            taken_in(table, chats, given).contains_key(id) <==> table.contains_key(id)
                || ids.take(given).contains(id) by {
            lemma_pushed_contains(ids.take(given - 1), ids[given - 1], id);
            let earlier = taken_in(table, chats, given - 1);
            assert(earlier.contains_key(id) <==> table.contains_key(id) || ids.take(
                given - 1,
            ).contains(id));
            assert(ids[given - 1] == chats[given - 1].id);
        }
    } else {
        assert(ids_of(chats).take(0) =~= Seq::<i64>::empty());
    }
}

/// Whether a chat is in the list in some mode.
pub open spec fn shown_in(mode: SidebarMode, folders: Seq<Folder>, chat: ChatSummary) -> bool {
    match mode {
        SidebarMode::Dialogs(folder) => !chat.archived && (folder == 0 || folder_holds(
            folders,
            folder,
            chat.id,
        )),
        SidebarMode::Archived => chat.archived,
        SidebarMode::Search(_) => false,
    }
}

/// Where the first folder with an id stands, or how many folders there are.
pub open spec fn folder_place(folders: Seq<Folder>, id: i32) -> int
    decreases folders.len(),
{
    if folders.len() == 0 {
        0
    } else {
        let earlier = folder_place(folders.drop_last(), id);
        if earlier < folders.len() - 1 || folders.last().id == id {
            earlier
        } else {
            folders.len() as int
        }
    }
}

/// Whether the first folder with an id holds a chat.
pub open spec fn folder_holds(folders: Seq<Folder>, folder: i32, chat: i64) -> bool {
    let at = folder_place(folders, folder);
    at < folders.len() && folders[at].chats@.contains(chat)
}

/// The bars after the list was filled anew.
pub open spec fn bars_filled(bars: Bars, mode: SidebarMode, archived: nat) -> Bars {
    match mode {
        SidebarMode::Search(_) => Bars { page: Page::Search, ..bars },
        _ => Bars {
            archived_count: archived as usize,
            archived_button: !bars.collapsed && archived > 0 && mode is Dialogs,
            page: Page::Dialogs,
            ..bars
        },
    }
}

/// The bars after the folders' tabs were made anew.
pub open spec fn bars_tabbed(bars: Bars, mode: SidebarMode, folders: nat, active: i32) -> Bars {
    Bars {
        folder_bar: folders > 0 && !bars.collapsed && mode is Dialogs,
        active_folder: active,
        ..bars
    }
}

pub(crate) fn has_id(ids: &Vec<i64>, id: i64) -> (found: bool)
    ensures
        found == ids@.contains(id),
{
    let mut i: usize = 0;
    while i < ids.len()
        invariant
            i <= ids@.len(),
            forall|j: int| 0 <= j < i ==> ids@[j] != id,
        decreases ids@.len() - i,
    {
        if ids[i] == id {
            return true;
        }
        i += 1;
    }
    false
}

pub(crate) fn without_id(order: &Vec<i64>, id: i64) -> (rest: Vec<i64>)
    ensures
        rest@ == ids_without(order@, id),
{
    let ghost keep = other_than(id);
    let mut rest: Vec<i64> = Vec::new();
    let mut i: usize = 0;
    proof {
        reveal(Seq::filter);
        assert(order@.take(0) =~= Seq::<i64>::empty());
    }
    while i < order.len()
        invariant
            i <= order@.len(),
            keep == other_than(id),
            rest@ == order@.take(i as int).filter(keep),
        decreases order@.len() - i,
    {
        proof {
            reveal(Seq::filter);
            assert(order@.take(i + 1).drop_last() =~= order@.take(i as int));
        }
        if order[i] != id {
            rest.push(order[i]);
        }
        i += 1;
    }
    assert(order@.take(i as int) =~= order@);
    rest
}

pub(crate) fn outside(order: &Vec<i64>, others: &Vec<i64>) -> (rest: Vec<i64>)
    ensures
        rest@ == ids_outside(order@, others@),
{
    let ghost keep = none_of(others@);
    let mut rest: Vec<i64> = Vec::new();
    let mut i: usize = 0;
    proof {
        reveal(Seq::filter);
        assert(order@.take(0) =~= Seq::<i64>::empty());
    }
    while i < order.len()
        invariant
            i <= order@.len(),
            keep == none_of(others@),
            rest@ == order@.take(i as int).filter(keep),
        decreases order@.len() - i,
    {
        proof {
            reveal(Seq::filter);
            assert(order@.take(i + 1).drop_last() =~= order@.take(i as int));
        }
        if !has_id(others, order[i]) {
            rest.push(order[i]);
        }
        i += 1;
    }
    assert(order@.take(i as int) =~= order@);
    rest
}

/// What a filtered list of ids holds.
pub proof fn lemma_filter_contains(order: Seq<i64>, keep: spec_fn(i64) -> bool)
    ensures
        forall|id: i64| #[trigger]
            order.filter(keep).contains(id) <==> order.contains(id) && keep(id),
    decreases order.len(),
{
    reveal(Seq::filter);
    let kept = order.filter(keep);
    if order.len() > 0 {
        let rest = order.drop_last();
        lemma_filter_contains(rest, keep);
        assert forall|id: i64| #[trigger] kept.contains(id) <==> order.contains(id) && keep(id) by {
            if kept.contains(id) {
                let p = kept.index_of(id);
                if p < rest.filter(keep).len() {
                    assert(rest.filter(keep)[p] == id);
                    assert(rest.filter(keep).contains(id));
                    assert(order[rest.index_of(id)] == id);
                } else {
                    assert(order[order.len() - 1] == id);
                }
            }
            if order.contains(id) && keep(id) {
                let p = order.index_of(id);
                if p < rest.len() {
                    assert(rest[p] == id);
                    assert(rest.filter(keep).contains(id));
                    assert(kept[rest.filter(keep).index_of(id)] == id);
                } else {
                    assert(kept[kept.len() - 1] == id);
                }
            }
        }
    }
}

/// Filtering a list filters its beginning, which stays its beginning.
pub proof fn lemma_filter_prefix(start: Seq<i64>, order: Seq<i64>, keep: spec_fn(i64) -> bool)
    requires
        start.is_prefix_of(order),
    ensures
        start.filter(keep).is_prefix_of(order.filter(keep)),
{
    let n = start.len() as int;
    let tail = order.skip(n);
    assert(order =~= start + tail) by {
        assert(order.subrange(0, n) =~= start);
        assert forall|i: int| 0 <= i < n implies order[i] == start[i] by {
            assert(order.subrange(0, n)[i] == order[i]);
        }
    }
    Seq::filter_distributes_over_add(start, tail, keep);
    let kept = start.filter(keep);
    assert((kept + tail.filter(keep)).subrange(0, kept.len() as int) =~= kept);
}

pub proof fn lemma_filter_all(order: Seq<i64>, keep: spec_fn(i64) -> bool)
    requires
        forall|i: int| 0 <= i < order.len() ==> keep(#[trigger] order[i]),
    ensures
        order.filter(keep) == order,
    decreases order.len(),
{
    reveal(Seq::filter);
    if order.len() > 0 {
        assert forall|i: int| 0 <= i < order.drop_last().len() implies keep(
            #[trigger] order.drop_last()[i],
        ) by {
            assert(order.drop_last()[i] == order[i]);
        }
        lemma_filter_all(order.drop_last(), keep);
        assert(order.last() == order[order.len() - 1]);
        assert(order.filter(keep) =~= order);
    }
}

} // verus!
