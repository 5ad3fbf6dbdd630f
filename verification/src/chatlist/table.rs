//! The chats that are known, each under its id.

use vstd::prelude::*;

use crate::tg::ChatSummary;

verus! {

/// Whether the chat with this id stands at `at`.
pub open spec fn stands_at(chats: Seq<ChatSummary>, id: i64, at: int) -> bool {
    0 <= at < chats.len() && chats[at].id == id
}

/// Whether there is a chat with this id.
pub open spec fn known(chats: Seq<ChatSummary>, id: i64) -> bool {
    exists|at: int| #[trigger] stands_at(chats, id, at)
}

/// The chat with this id.
pub open spec fn chat_of(chats: Seq<ChatSummary>, id: i64) -> ChatSummary {
    chats[choose|at: int| #[trigger] stands_at(chats, id, at)]
}

/// Whether no id occurs twice.
pub open spec fn distinct(chats: Seq<ChatSummary>) -> bool {
    forall|i: int, j: int|
        0 <= i < j < chats.len() ==> (#[trigger] chats[i]).id != (#[trigger] chats[j]).id
}

/// The chats under their ids.
pub open spec fn by_id(chats: Seq<ChatSummary>) -> Map<i64, ChatSummary> {
    Map::new(|id: i64| known(chats, id), |id: i64| chat_of(chats, id))
}

/// In a table without duplicates an id stands in one place.
pub proof fn lemma_place(chats: Seq<ChatSummary>, at: int)
    requires
        distinct(chats),
        0 <= at < chats.len(),
    ensures
        known(chats, chats[at].id),
        chat_of(chats, chats[at].id) == chats[at],
        by_id(chats).contains_key(chats[at].id),
        by_id(chats)[chats[at].id] == chats[at],
{
    let id = chats[at].id;
    assert(stands_at(chats, id, at));
    let other = choose|other: int| #[trigger] stands_at(chats, id, other);
    if other < at {
        assert(chats[other].id != chats[at].id);
    } else if at < other {
        assert(chats[at].id != chats[other].id);
    }
}

/// A table of chats.
pub struct ChatTable {
    pub chats: Vec<ChatSummary>,
}

impl View for ChatTable {
    type V = Map<i64, ChatSummary>;

    open spec fn view(&self) -> Map<i64, ChatSummary> {
        by_id(self.chats@)
    }
}

impl ChatTable {
    /// No id occurs twice, and each chat stands under its own id.
    pub open spec fn well_formed(self) -> bool {
        distinct(self.chats@)
    }

    pub fn new() -> (table: ChatTable)
        ensures
            table.well_formed(),
            table.chats@.len() == 0,
            table@ == Map::<i64, ChatSummary>::empty(),
    {
        let table = ChatTable { chats: Vec::new() };
        assert(table@ =~= Map::<i64, ChatSummary>::empty());
        table
    }

    /// Where the chat with this id stands.
    pub fn position(&self, id: i64) -> (place: Option<usize>)
        requires
            self.well_formed(),
        ensures
            match place {
                Some(at) => at < self.chats@.len() && self.chats@[at as int].id == id
                    && self@.contains_key(id) && self@[id] == self.chats@[at as int],
                None => !self@.contains_key(id),
            },
    {
        let mut at: usize = 0;
        while at < self.chats.len()
            invariant
                self.well_formed(),
                at <= self.chats@.len(),
                forall|j: int| 0 <= j < at ==> (#[trigger] self.chats@[j]).id != id,
            decreases self.chats@.len() - at,
        {
            if self.chats[at].id == id {
                proof {
                    lemma_place(self.chats@, at as int);
                }
                return Some(at);
            }
            at += 1;
        }
        None
    }

    /// The chat with this id.
    pub fn get(&self, id: i64) -> (chat: Option<&ChatSummary>)
        requires
            self.well_formed(),
        ensures
            match chat {
                Some(found) => self@.contains_key(id) && *found == self@[id] && found.id == id,
                None => !self@.contains_key(id),
            },
    {
        match self.position(id) {
            Some(at) => Some(&self.chats[at]),
            None => None,
        }
    }

    /// Takes a chat in, in place of an earlier one with its id.
    pub fn insert(&mut self, chat: ChatSummary)
        requires
            old(self).well_formed(),
        ensures
            final(self).well_formed(),
            final(self)@ == old(self)@.insert(chat.id, chat),
    {
        let ghost before = self.chats@;
        let ghost id = chat.id;
        match self.position(chat.id) {
            Some(at) => {
                self.chats.set(at, chat);
                let ghost after = self.chats@;
                proof {
                    assert forall|i: int, j: int| 0 <= i < j < after.len() implies (
                    #[trigger] after[i]).id != (#[trigger] after[j]).id by {
                        assert(before[i].id != before[j].id);
                    }
                    lemma_replaced(before, after, at as int);
                }
                assert(self@ =~= old(self)@.insert(id, chat));
            },
            None => {
                self.chats.push(chat);
                let ghost after = self.chats@;
                proof {
                    assert forall|i: int, j: int| 0 <= i < j < after.len() implies (
                    #[trigger] after[i]).id != (#[trigger] after[j]).id by {
                        if j == before.len() {
                            assert(stands_at(before, before[i].id, i));
                            assert(known(before, before[i].id));
                        } else {
                            assert(before[i].id != before[j].id);
                        }
                    }
                    lemma_pushed(before, chat);
                }
                assert(self@ =~= old(self)@.insert(id, chat));
            },
        }
    }

    /// Forgets a chat.
    pub fn remove(&mut self, id: i64)
        requires
            old(self).well_formed(),
        ensures
            final(self).well_formed(),
            final(self)@ == old(self)@.remove(id),
    {
        let ghost before = self.chats@;
        match self.position(id) {
            Some(at) => {
                let _removed = self.chats.remove(at);
                let ghost after = self.chats@;
                proof {
                    assert forall|i: int, j: int| 0 <= i < j < after.len() implies (
                    #[trigger] after[i]).id != (#[trigger] after[j]).id by {
                        let a = if i < at { i } else { i + 1 };
                        let b = if j < at { j } else { j + 1 };
                        assert(before[a].id != before[b].id);
                    }
                    lemma_removed(before, at as int);
                }
                assert(self@ =~= old(self)@.remove(id));
            },
            None => {
                assert(self@ =~= old(self)@.remove(id));
            },
        }
    }
}

proof fn lemma_replaced(before: Seq<ChatSummary>, after: Seq<ChatSummary>, at: int)
    requires
        distinct(before),
        distinct(after),
        0 <= at < before.len(),
        after.len() == before.len(),
        after[at].id == before[at].id,
        after == before.update(at, after[at]),
    ensures
        by_id(after) =~= by_id(before).insert(after[at].id, after[at]),
{
    lemma_place(after, at);
    assert forall|id: i64| #[trigger] known(after, id) <==> known(before, id) by {
        if known(after, id) {
            let p = choose|p: int| #[trigger] stands_at(after, id, p);
            assert(stands_at(before, id, p));
        }
        if known(before, id) {
            let p = choose|p: int| #[trigger] stands_at(before, id, p);
            assert(stands_at(after, id, p));
        }
    }
    lemma_place(before, at);
    assert forall|id: i64| known(after, id) && id != after[at].id implies chat_of(after, id)
        == chat_of(before, id) by {
        let p = choose|p: int| #[trigger] stands_at(after, id, p);
        lemma_place(after, p);
        lemma_place(before, p);
    }
}

proof fn lemma_pushed(before: Seq<ChatSummary>, chat: ChatSummary)
    requires
        distinct(before),
        distinct(before.push(chat)),
    ensures
        by_id(before.push(chat)) =~= by_id(before).insert(chat.id, chat),
{
    let after = before.push(chat);
    lemma_place(after, before.len() as int);
    assert forall|id: i64| #[trigger] known(after, id) <==> known(before, id) || id == chat.id by {
        if known(after, id) && id != chat.id {
            let p = choose|p: int| #[trigger] stands_at(after, id, p);
            assert(stands_at(before, id, p));
        }
        if known(before, id) {
            let p = choose|p: int| #[trigger] stands_at(before, id, p);
            assert(stands_at(after, id, p));
        }
    }
    assert forall|id: i64| known(before, id) && id != chat.id implies chat_of(after, id) == chat_of(
        before,
        id,
    ) by {
        let p = choose|p: int| #[trigger] stands_at(before, id, p);
        lemma_place(before, p);
        lemma_place(after, p);
    }
}

pub proof fn lemma_removed(before: Seq<ChatSummary>, at: int)
    requires
        distinct(before),
        distinct(before.remove(at)),
        0 <= at < before.len(),
    ensures
        by_id(before.remove(at)) =~= by_id(before).remove(before[at].id),
{
    let after = before.remove(at);
    assert forall|id: i64| #[trigger] known(after, id) <==> known(before, id) && id != before[at].id by {
        if known(after, id) {
            let p = choose|p: int| #[trigger] stands_at(after, id, p);
            let q = if p < at { p } else { p + 1 };
            assert(stands_at(before, id, q));
            if q < at {
                assert(before[q].id != before[at].id);
            } else {
                assert(before[at].id != before[q].id);
            }
        }
        if known(before, id) && id != before[at].id {
            let p = choose|p: int| #[trigger] stands_at(before, id, p);
            assert(stands_at(after, id, if p < at { p } else { p - 1 }));
        }
    }
    assert forall|id: i64| known(after, id) implies chat_of(after, id) == chat_of(before, id) by {
        let p = choose|p: int| #[trigger] stands_at(after, id, p);
        lemma_place(after, p);
        lemma_place(before, if p < at { p } else { p + 1 });
    }
}

} // verus!
