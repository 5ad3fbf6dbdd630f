//! Searching for chats and messages.

use vstd::prelude::*;

use crate::chatlist::list::{Bars, ChatList, Page, SidebarMode};
use crate::text::{
    characters, contains, contains_text, lowercase, lowercased, text_between, trim, trimmed,
};
use crate::tg::{ChatSummary, Msg};

verus! {

/// How long a query must be before the server is asked.
pub const REMOTE_QUERY: usize = 3;

/// A search, and what came of it.
pub struct SearchData {
    pub generation: u64,
    pub query: String,
    pub chats_loading: bool,
    pub messages_loading: bool,
    pub chats_error: Option<String>,
    pub messages_error: Option<String>,
    pub remote_chats: Vec<ChatSummary>,
    pub messages: Vec<Msg>,
}

/// Which part of a search is tried again.
#[derive(Debug, Clone, Copy, PartialEq, Eq, Structural)]
pub enum SearchRetry {
    Chats,
    Messages,
}

/// What stands below the results of one part of a search.
#[derive(Debug, PartialEq, Eq)]
pub enum SectionState {
    /// Results are still to come.
    Loading,
    /// The search failed and can be tried again.
    Failed(String),
    /// There is nothing to show, and this is why.
    Note(&'static str),
    /// The results stand for themselves.
    Done,
}

impl SearchData {
    /// Nothing was searched yet.
    pub open spec fn idle(self) -> bool {
        &&& self.generation == 0
        &&& self.query@.len() == 0
        &&& !self.chats_loading
        &&& !self.messages_loading
        &&& self.chats_error is None
        &&& self.messages_error is None
        &&& self.remote_chats@.len() == 0
        &&& self.messages@.len() == 0
    }

    pub fn new() -> (data: SearchData)
        ensures
            data.idle(),
    {
        SearchData {
            generation: 0,
            query: String::new(),
            chats_loading: false,
            messages_loading: false,
            chats_error: None,
            messages_error: None,
            remote_chats: Vec::new(),
            messages: Vec::new(),
        }
    }

    /// Whether this is the search that an answer belongs to.
    pub open spec fn answers(self, query: Seq<char>, generation: u64) -> bool {
        self.generation == generation && self.query@ == query
    }

    /// A search that has just begun.
    pub open spec fn begun(self, before: SearchData, query: Seq<char>) -> bool {
        &&& self.generation == before.generation.wrapping_add(1)
        &&& self.query@ == query
        &&& self.chats_loading == (query.len() >= REMOTE_QUERY)
        &&& self.messages_loading == (query.len() >= REMOTE_QUERY)
        &&& self.chats_error is None
        &&& self.messages_error is None
        &&& self.remote_chats@.len() == 0
        &&& self.messages@.len() == 0
    }

    fn is_current(&self, query: &str, generation: u64) -> (answer: bool)
        ensures
            answer == self.answers(query@, generation),
    {
        self.generation == generation && crate::text::same_text(self.query.as_str(), query)
    }
}

/// The text without the `@` signs that it begins with.
pub open spec fn without_at_signs(text: Seq<char>) -> Seq<char>
    decreases text.len(),
{
    if text.len() > 0 && text[0] == '@' {
        without_at_signs(text.drop_first())
    } else {
        text
    }
}

pub(crate) fn trim_at_signs(text: &str) -> (rest: String)
    ensures
        rest@ == without_at_signs(text@),
{
    let chars = characters(text);
    let mut start: usize = 0;
    assert(chars@.skip(0) =~= text@);
    while start < chars.len() && chars[start] == '@'
        invariant
            start <= chars@.len(),
            chars@ == text@,
            without_at_signs(chars@.skip(start as int)) == without_at_signs(text@),
        decreases chars@.len() - start,
    {
        assert(chars@.skip(start as int).drop_first() =~= chars@.skip(start + 1));
        start += 1;
    }
    assert(chars@.skip(start as int) =~= chars@.subrange(start as int, chars@.len() as int));
    text_between(&chars, start, chars.len())
}

/// Which chats a query finds: those with it in their title, or, without its `@`
/// signs, in their username. Case does not matter.
pub open spec fn found_by(query: Seq<char>) -> spec_fn(ChatSummary) -> bool {
    |chat: ChatSummary|
        contains_text(lowercased(chat.title@), lowercased(query)) || contains_text(
            lowercased(chat.username@),
            without_at_signs(lowercased(query)),
        )
}

/// Whether a chat with an id is among others.
pub open spec fn listed(chats: Seq<ChatSummary>, id: i64) -> bool {
    crate::chatlist::table::known(chats, id)
}

/// The known chats that were found, and behind them the first `given` of the
/// server's, each chat once.
pub open spec fn with_remote(
    local: Seq<ChatSummary>,
    remote: Seq<ChatSummary>,
    given: int,
) -> Seq<ChatSummary>
    decreases given,
{
    if given <= 0 {
        local
    } else {
        let earlier = with_remote(local, remote, given - 1);
        if listed(earlier, remote[given - 1].id) {
            earlier
        } else {
            earlier.push(remote[given - 1])
        }
    }
}

/// How many of the server's chats are not known here.
pub open spec fn unknown_in(
    table: Map<i64, ChatSummary>,
    remote: Seq<ChatSummary>,
) -> nat
    decreases remote.len(),
{
    if remote.len() == 0 {
        0
    } else {
        unknown_in(table, remote.drop_last()) + (if table.contains_key(remote.last().id) {
            0nat
        } else {
            1nat
        })
    }
}

fn is_listed(chats: &Vec<ChatSummary>, id: i64) -> (found: bool)
    ensures
        found == listed(chats@, id),
{
    let mut i: usize = 0;
    while i < chats.len()
        invariant
            i <= chats@.len(),
            forall|j: int| 0 <= j < i ==> (#[trigger] chats@[j]).id != id,
        decreases chats@.len() - i,
    {
        if chats[i].id == id {
            assert(crate::chatlist::table::stands_at(chats@, id, i as int));
            return true;
        }
        i += 1;
    }
    false
}

/// What stands below the chats that were found.
pub open spec fn chats_state(data: SearchData, shown: int, state: SectionState) -> bool {
    if data.chats_loading {
        state is Loading
    } else if data.chats_error is Some {
        state == SectionState::Failed(data.chats_error->0)
    } else if shown == 0 {
        state == SectionState::Note("No results")
    } else {
        state is Done
    }
}

/// What stands below the messages that were found.
pub open spec fn messages_state(data: SearchData, state: SectionState) -> bool {
    if data.messages_loading {
        state is Loading
    } else if data.messages_error is Some {
        state == SectionState::Failed(data.messages_error->0)
    } else if data.messages@.len() == 0 {
        state == SectionState::Note(
            if data.query@.len() < REMOTE_QUERY {
                "Type 3 characters to search messages"
            } else {
                "No results"
            },
        )
    } else {
        state is Done
    }
}

/// What a new query makes of the list. An empty query ends the search.
pub open spec fn searched(before: ChatList, after: ChatList, query: Seq<char>) -> bool {
    &&& after.search.begun(before.search, query)
    &&& query.len() == 0 ==> {
        &&& after.mode == before.prior_mode
        &&& after.prior_mode == before.prior_mode
        &&& after.bars == (Bars {
            page: Page::Dialogs,
            folder_bar: !before.bars.collapsed && before.folders@.len() > 0
                && before.prior_mode is Dialogs,
            ..before.bars
        })
    }
    &&& query.len() > 0 ==> {
        &&& after.mode is Search
        &&& after.mode->Search_0@ == query
        &&& after.prior_mode == (if before.mode is Search {
            before.prior_mode
        } else {
            before.mode
        })
        &&& after.bars == (Bars { page: Page::Search, folder_bar: false, ..before.bars })
    }
    &&& after == (ChatList {
        search: after.search,
        mode: after.mode,
        prior_mode: after.prior_mode,
        bars: after.bars,
        ..before
    })
}

/// A search that ends leaves what was shown before it, and the chats as they are.
pub proof fn law_search_is_left_behind(
    before: ChatList,
    during: ChatList,
    after: ChatList,
    query: Seq<char>,
)
    requires
        !(before.mode is Search),
        query.len() > 0,
        searched(before, during, query),
        searched(during, after, Seq::<char>::empty()),
    ensures
        after.mode == before.mode,
        after.visible() == before.visible(),
        after.selected == before.selected,
{
    assert(after.is_visible() =~= before.is_visible());
}

impl ChatList {
    /// All chats in order.
    pub open spec fn in_order(self) -> Seq<ChatSummary> {
        self.known_ids().map_values(|id: i64| self.table@[id])
    }

    /// The known chats that a query finds.
    pub open spec fn local_matches(self, query: Seq<char>) -> Seq<ChatSummary> {
        self.in_order().filter(found_by(query))
    }

    /// The text in the search field changed. An empty query ends the search.
    /// Returns the query, and the number of the search that the answers must name.
    pub fn search_changed(&mut self, text: &str) -> (asked: (String, u64))
        requires
            old(self).well_formed(),
        ensures
            final(self).well_formed(),
            asked.0@ == trimmed(text@),
            asked.1 == final(self).search.generation,
            searched(*old(self), *final(self), trimmed(text@)),
    {
        let query = trim(text);
        let generation: u64 = self.search.generation.wrapping_add(1);
        let remote = query.as_str().unicode_len() >= REMOTE_QUERY;
        self.search = SearchData {
            generation,
            query: query.clone(),
            chats_loading: remote,
            messages_loading: remote,
            chats_error: None,
            messages_error: None,
            remote_chats: Vec::new(),
            messages: Vec::new(),
        };
        let bars = self.bars;
        if query.as_str().unicode_len() == 0 {
            let restore = self.prior_mode.clone();
            let folder_bar = !bars.collapsed && self.folders.len() > 0 && matches!(
                restore,
                SidebarMode::Dialogs(_)
            );
            self.mode = restore;
            self.bars = Bars { page: Page::Dialogs, folder_bar, ..bars };
        } else {
            if !matches!(self.mode, SidebarMode::Search(_)) {
                self.prior_mode = self.mode.clone();
            }
            self.mode = SidebarMode::Search(query.clone());
            self.bars = Bars {
                page: Page::Search,
                folder_bar: false,
                ..bars
            };
        }
        (query, generation)
    }

    /// The chats that the server found, unless another search was begun since.
    pub fn finish_chat_search(
        &mut self,
        query: &str,
        generation: u64,
        result: Result<Vec<ChatSummary>, String>,
    )
        ensures
            !old(self).search.answers(query@, generation) ==> *final(self) == *old(self),
            old(self).search.answers(query@, generation) ==> final(self).search == (match result {
                Ok(chats) => SearchData {
                    chats_loading: false,
                    remote_chats: chats,
                    chats_error: None,
                    ..old(self).search
                },
                Err(error) => SearchData {
                    chats_loading: false,
                    chats_error: Some(error),
                    ..old(self).search
                },
            }),
            *final(self) == (ChatList { search: final(self).search, ..*old(self) }),
    {
        if !self.search.is_current(query, generation) {
            return;
        }
        self.search.chats_loading = false;
        match result {
            Ok(chats) => {
                self.search.remote_chats = chats;
                self.search.chats_error = None;
            },
            Err(error) => {
                self.search.chats_error = Some(error);
            },
        }
    }

    /// The messages that the server found, unless another search was begun since.
    pub fn finish_message_search(
        &mut self,
        query: &str,
        generation: u64,
        result: Result<Vec<Msg>, String>,
    )
        ensures
            !old(self).search.answers(query@, generation) ==> *final(self) == *old(self),
            old(self).search.answers(query@, generation) ==> final(self).search == (match result {
                Ok(messages) => SearchData {
                    messages_loading: false,
                    messages,
                    messages_error: None,
                    ..old(self).search
                },
                Err(error) => SearchData {
                    messages_loading: false,
                    messages_error: Some(error),
                    ..old(self).search
                },
            }),
            *final(self) == (ChatList { search: final(self).search, ..*old(self) }),
    {
        if !self.search.is_current(query, generation) {
            return;
        }
        self.search.messages_loading = false;
        match result {
            Ok(messages) => {
                self.search.messages = messages;
                self.search.messages_error = None;
            },
            Err(error) => {
                self.search.messages_error = Some(error);
            },
        }
    }

    /// The known chats that a query finds, in order.
    pub fn local_search_chats(&self, query: &str) -> (chats: Vec<ChatSummary>)
        requires
            self.well_formed(),
        ensures
            chats@ == self.local_matches(query@),
    {
        let lower = lowercase(query);
        let name = trim_at_signs(lower.as_str());
        let all = self.ordered_summaries();
        let ghost keep = found_by(query@);
        assert(all@ =~= self.in_order());
        let mut chats: Vec<ChatSummary> = Vec::new();
        let mut i: usize = 0;
        proof {
            reveal(Seq::filter);
            assert(all@.take(0) =~= Seq::<ChatSummary>::empty());
        }
        while i < all.len()
            invariant
                i <= all@.len(),
                keep == found_by(query@),
                lower@ == lowercased(query@),
                name@ == without_at_signs(lower@),
                chats@ == all@.take(i as int).filter(keep),
            decreases all@.len() - i,
        {
            proof {
                reveal(Seq::filter);
                assert(all@.take(i + 1).drop_last() =~= all@.take(i as int));
                assert(all@.take(i + 1).last() == all@[i as int]);
            }
            let title = lowercase(all[i].title.as_str());
            let username = lowercase(all[i].username.as_str());
            let found = contains(title.as_str(), lower.as_str()) || contains(
                username.as_str(),
                name.as_str(),
            );
            assert(found == keep(all@[i as int]));
            if found {
                chats.push(all[i].clone());
            }
            i += 1;
        }
        assert(all@.take(i as int) =~= all@);
        chats
    }

    /// The chats that the search shows.
    pub fn found_chats(&self) -> (chats: Vec<ChatSummary>)
        requires
            self.well_formed(),
        ensures
            chats@ == with_remote(
                self.local_matches(self.search.query@),
                self.search.remote_chats@,
                self.search.remote_chats@.len() as int,
            ),
    {
        let mut chats = self.local_search_chats(self.search.query.as_str());
        let ghost local = chats@;
        let remote = &self.search.remote_chats;
        let mut i: usize = 0;
        while i < remote.len()
            invariant
                i <= remote@.len(),
                chats@ == with_remote(local, remote@, i as int),
            decreases remote@.len() - i,
        {
            if !is_listed(&chats, remote[i].id) {
                chats.push(remote[i].clone());
            }
            i += 1;
        }
        chats
    }

    /// What stands below the chats that were found.
    pub fn chats_section(&self) -> (state: SectionState)
        requires
            self.well_formed(),
        ensures
            chats_state(
                self.search,
                with_remote(
                    self.local_matches(self.search.query@),
                    self.search.remote_chats@,
                    self.search.remote_chats@.len() as int,
                ).len() as int,
                state,
            ),
    {
        if self.search.chats_loading {
            return SectionState::Loading;
        }
        if let Some(error) = &self.search.chats_error {
            return SectionState::Failed(error.clone());
        }
        let chats = self.found_chats();
        if chats.len() == 0 {
            SectionState::Note("No results")
        } else {
            SectionState::Done
        }
    }

    /// What stands below the messages that were found.
    pub fn messages_section(&self) -> (state: SectionState)
        ensures
            messages_state(self.search, state),
    {
        if self.search.messages_loading {
            return SectionState::Loading;
        }
        if let Some(error) = &self.search.messages_error {
            return SectionState::Failed(error.clone());
        }
        if self.search.messages.len() > 0 {
            SectionState::Done
        } else if self.search.query.as_str().unicode_len() < REMOTE_QUERY {
            SectionState::Note("Type 3 characters to search messages")
        } else {
            SectionState::Note("No results")
        }
    }

    /// How many chats and messages were found. Unlike the list of found chats this
    /// counts a chat that the server names twice as two.
    pub fn search_counts(&self) -> (counts: (usize, usize))
        requires
            self.well_formed(),
            self.order@.len() + self.search.remote_chats@.len() <= usize::MAX,
        ensures
            counts.0 == self.local_matches(self.search.query@).len() + unknown_in(
                self.table@,
                self.search.remote_chats@,
            ),
            counts.1 == self.search.messages@.len(),
    {
        let local = self.local_search_chats(self.search.query.as_str());
        proof {
            self.in_order().lemma_filter_len(found_by(self.search.query@));
            self.order@.lemma_filter_len(|id: i64| self.table@.contains_key(id));
        }
        let remote = &self.search.remote_chats;
        let mut count: usize = local.len();
        let mut i: usize = 0;
        assert(remote@.take(0) =~= Seq::<ChatSummary>::empty());
        while i < remote.len()
            invariant
                self.well_formed(),
                i <= remote@.len(),
                local@.len() + remote@.len() <= usize::MAX,
                unknown_in(self.table@, remote@.take(i as int)) <= i,
                count == local@.len() + unknown_in(self.table@, remote@.take(i as int)),
            decreases remote@.len() - i,
        {
            assert(remote@.take(i + 1).drop_last() =~= remote@.take(i as int));
            assert(remote@.take(i + 1).last() == remote@[i as int]);
            if self.table.get(remote[i].id).is_none() {
                count += 1;
            }
            i += 1;
        }
        assert(remote@.take(i as int) =~= remote@);
        (count, self.search.messages.len())
    }

    /// A chat that is known, or else that the search found.
    pub fn search_summary(&self, chat_id: i64) -> (summary: Option<ChatSummary>)
        requires
            self.well_formed(),
        ensures
            self.table@.contains_key(chat_id) ==> summary == Some(self.table@[chat_id]),
            !self.table@.contains_key(chat_id) ==> match summary {
                Some(chat) => exists|at: int|
                    0 <= at < self.search.remote_chats@.len() && #[trigger]
                    self.search.remote_chats@[at] == chat && chat.id == chat_id && (forall|i: int|
                        0 <= i < at ==> (#[trigger] self.search.remote_chats@[i]).id != chat_id),
                None => !listed(self.search.remote_chats@, chat_id),
            },
    {
        if let Some(chat) = self.table.get(chat_id) {
            return Some(chat.clone());
        }
        let remote = &self.search.remote_chats;
        let mut i: usize = 0;
        while i < remote.len()
            invariant
                i <= remote@.len(),
                remote == self.search.remote_chats,
                forall|j: int| 0 <= j < i ==> (#[trigger] remote@[j]).id != chat_id,
                !self.table@.contains_key(chat_id),
            decreases remote@.len() - i,
        {
            if remote[i].id == chat_id {
                let chat = remote[i].clone();
                assert(self.search.remote_chats@[i as int] == chat);
                return Some(chat);
            }
            i += 1;
        }
        None
    }

    pub fn search_generation(&self) -> (generation: u64)
        ensures
            generation == self.search.generation,
    {
        self.search.generation
    }

    pub fn search_has_message_error(&self) -> (failed: bool)
        ensures
            failed == (self.search.messages_error is Some),
    {
        self.search.messages_error.is_some()
    }

    pub fn search_messages_ready(&self) -> (ready: bool)
        ensures
            ready == (!self.search.messages_loading && self.search.messages_error is None),
    {
        !self.search.messages_loading && self.search.messages_error.is_none()
    }

    /// What is asked again when the search for messages is tried again.
    pub fn activate_message_retry(&self) -> (asked: (SearchRetry, String, u64))
        ensures
            asked.0 == SearchRetry::Messages,
            asked.1 == self.search.query,
            asked.2 == self.search.generation,
    {
        (SearchRetry::Messages, self.search.query.clone(), self.search.generation)
    }

    /// What is asked again when the search for chats is tried again.
    pub fn activate_chat_retry(&self) -> (asked: (SearchRetry, String, u64))
        ensures
            asked.0 == SearchRetry::Chats,
            asked.1 == self.search.query,
            asked.2 == self.search.generation,
    {
        (SearchRetry::Chats, self.search.query.clone(), self.search.generation)
    }
}

/// Whether all ids among some chats differ.
pub open spec fn all_once(chats: Seq<ChatSummary>) -> bool {
    crate::chatlist::table::distinct(chats)
}

/// A search shows no chat twice, and it shows each chat that the server found.
pub proof fn law_found_chats_are_shown_once(
    local: Seq<ChatSummary>,
    remote: Seq<ChatSummary>,
    given: int,
)
    requires
        all_once(local),
        0 <= given <= remote.len(),
    ensures
        all_once(with_remote(local, remote, given)),
        local.is_prefix_of(with_remote(local, remote, given)),
        forall|i: int|
            0 <= i < given ==> listed(
                with_remote(local, remote, given),
                (#[trigger] remote[i]).id,
            ),
    decreases given,
{
    let all = with_remote(local, remote, given);
    if given > 0 {
        law_found_chats_are_shown_once(local, remote, given - 1);
        let earlier = with_remote(local, remote, given - 1);
        let chat = remote[given - 1];
        assert(local.is_prefix_of(all)) by {
            assert(all.subrange(0, local.len() as int) =~= earlier.subrange(0, local.len() as int));
        }
        if !listed(earlier, chat.id) {
            assert forall|i: int, j: int| 0 <= i < j < all.len() implies (#[trigger] all[i]).id != (
            #[trigger] all[j]).id by {
                if j == earlier.len() {
                    assert(crate::chatlist::table::stands_at(earlier, all[i].id, i));
                } else {
                    assert(earlier[i].id != earlier[j].id);
                }
            }
            assert(crate::chatlist::table::stands_at(all, chat.id, earlier.len() as int));
        }
        assert forall|i: int| 0 <= i < given implies listed(all, (#[trigger] remote[i]).id) by {
            if i < given - 1 {
                assert(listed(earlier, remote[i].id));
                let p = choose|p: int| #[trigger]
                    crate::chatlist::table::stands_at(earlier, remote[i].id, p);
                assert(crate::chatlist::table::stands_at(all, remote[i].id, p));
            }
        }
    } else {
        assert(local.subrange(0, local.len() as int) =~= local);
    }
}

} // verus!
