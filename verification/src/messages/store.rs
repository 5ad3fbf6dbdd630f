//! The messages of the open chat, in the order of their ids.

use vstd::prelude::*;

use crate::text::same_text;
use crate::tg::Msg;

verus! {

/// The declaration of `std::path::PathBuf`, which is only carried through.
#[verifier::external_type_specification]
#[verifier::external_body]
pub struct ExPathBuf(std::path::PathBuf);

/// How far the file of a message has come.
pub enum MediaState {
    NotStarted,
    InFlight,
    Done(std::path::PathBuf),
    Failed,
}

/// A message that is shown, with what the view keeps about it.
pub struct MessageEntry {
    pub msg: Msg,
    pub media_state: MediaState,
    pub media_retryable: bool,
    /// Whether the button for the file can be pressed.
    pub media_enabled: bool,
    /// Whether the button says that the file is unavailable.
    pub media_unavailable: bool,
    /// Whether the row is set in a fixed-width font.
    pub monospace: bool,
}

/// The messages of one chat. The entries are kept in the order of their ids.
pub struct MessageStore {
    pub chat_id: Option<i64>,
    pub entries: Vec<MessageEntry>,
}

/// Whether ids rise from entry to entry, so that no id occurs twice.
pub open spec fn ascending(entries: Seq<MessageEntry>) -> bool {
    forall|i: int, j: int|
        0 <= i < j < entries.len() ==> (#[trigger] entries[i]).msg.id < (
        #[trigger] entries[j]).msg.id
}

/// Whether the entry with this id stands at `at`.
pub open spec fn stands_at(entries: Seq<MessageEntry>, id: i32, at: int) -> bool {
    0 <= at < entries.len() && entries[at].msg.id == id
}

/// Whether there is an entry with this id.
pub open spec fn holds(entries: Seq<MessageEntry>, id: i32) -> bool {
    exists|at: int| #[trigger] stands_at(entries, id, at)
}

/// Where the entry with this id stands.
pub open spec fn place_of(entries: Seq<MessageEntry>, id: i32) -> int {
    choose|at: int| #[trigger] stands_at(entries, id, at)
}

/// Where an id belongs: behind all smaller ones.
pub open spec fn rank(entries: Seq<MessageEntry>, id: i32) -> int
    decreases entries.len(),
{
    if entries.len() == 0 {
        0
    } else if entries.last().msg.id < id {
        entries.len() as int
    } else {
        rank(entries.drop_last(), id)
    }
}

/// The entry of a message that has just come.
pub open spec fn fresh(msg: Msg) -> MessageEntry {
    MessageEntry {
        msg,
        media_state: MediaState::NotStarted,
        media_retryable: false,
        media_enabled: true,
        media_unavailable: false,
        monospace: false,
    }
}

/// The entries with one more message: a known id gets the message's new content,
/// a new one is put where it belongs.
pub open spec fn with_message(entries: Seq<MessageEntry>, msg: Msg) -> Seq<MessageEntry> {
    if holds(entries, msg.id) {
        let at = place_of(entries, msg.id);
        entries.update(at, MessageEntry { msg, ..entries[at] })
    } else {
        entries.insert(rank(entries, msg.id), fresh(msg))
    }
}

/// The entries with the first `given` of some messages. Messages of another chat
/// are left out.
pub open spec fn with_messages(
    chat_id: Option<i64>,
    entries: Seq<MessageEntry>,
    messages: Seq<Msg>,
    given: int,
) -> Seq<MessageEntry>
    decreases given,
{
    if given <= 0 {
        entries
    } else {
        let earlier = with_messages(chat_id, entries, messages, given - 1);
        if chat_id == Some(messages[given - 1].chat_id) {
            with_message(earlier, messages[given - 1])
        } else {
            earlier
        }
    }
}

/// The ids among the first `given` messages that were not known before.
pub open spec fn new_ids(
    chat_id: Option<i64>,
    entries: Seq<MessageEntry>,
    messages: Seq<Msg>,
    given: int,
) -> Seq<i32>
    decreases given,
{
    if given <= 0 {
        Seq::empty()
    } else {
        let earlier = new_ids(chat_id, entries, messages, given - 1);
        let msg = messages[given - 1];
        if chat_id == Some(msg.chat_id) && !holds(
            with_messages(chat_id, entries, messages, given - 1),
            msg.id,
        ) {
            earlier.push(msg.id)
        } else {
            earlier
        }
    }
}

/// Whether a message replaces another as an edit that a reader should notice.
pub open spec fn noticeable_edit(before: Msg, after: Msg) -> bool {
    after.edited && (!before.edited || before.text@ != after.text@)
}

/// The ids among the first `given` messages that are noticeable edits.
pub open spec fn edited_ids(
    chat_id: Option<i64>,
    entries: Seq<MessageEntry>,
    messages: Seq<Msg>,
    given: int,
) -> Seq<i32>
    decreases given,
{
    if given <= 0 {
        Seq::empty()
    } else {
        let earlier = edited_ids(chat_id, entries, messages, given - 1);
        let known = with_messages(chat_id, entries, messages, given - 1);
        let msg = messages[given - 1];
        if chat_id == Some(msg.chat_id) && holds(known, msg.id) && noticeable_edit(
            known[place_of(known, msg.id)].msg,
            msg,
        ) {
            earlier.push(msg.id)
        } else {
            earlier
        }
    }
}

proof fn lemma_rank(entries: Seq<MessageEntry>, id: i32)
    requires
        ascending(entries),
        !holds(entries, id),
    ensures
        0 <= rank(entries, id) <= entries.len(),
        forall|i: int| 0 <= i < rank(entries, id) ==> (#[trigger] entries[i]).msg.id < id,
        forall|i: int| rank(entries, id) <= i < entries.len() ==> (#[trigger] entries[i]).msg.id > id,
    decreases entries.len(),
{
    if entries.len() > 0 {
        let rest = entries.drop_last();
        assert(ascending(rest)) by {
            assert forall|i: int, j: int| 0 <= i < j < rest.len() implies (#[trigger] rest[i]).msg.id < (
            #[trigger] rest[j]).msg.id by {
                assert(rest[i] == entries[i] && rest[j] == entries[j]);
            }
        }
        assert(!holds(rest, id)) by {
            if holds(rest, id) {
                let at = choose|at: int| #[trigger] stands_at(rest, id, at);
                assert(stands_at(entries, id, at));
            }
        }
        lemma_rank(rest, id);
        assert(!stands_at(entries, id, entries.len() - 1));
        assert(entries.last() == entries[entries.len() - 1]);
        if entries.last().msg.id >= id {
            assert forall|i: int| 0 <= i < rank(entries, id) implies (#[trigger] entries[i]).msg.id < id by {
                assert(rest[i] == entries[i]);
            }
            assert forall|i: int| rank(entries, id) <= i < entries.len() implies (
            #[trigger] entries[i]).msg.id > id by {
                if i < rest.len() {
                    assert(rest[i] == entries[i]);
                }
            }
        }
    }
}

/// The place of an unknown id is within the list or at its end.
pub proof fn lemma_place_is_within(entries: Seq<MessageEntry>, id: i32)
    requires
        ascending(entries),
        !holds(entries, id),
    ensures
        0 <= rank(entries, id) <= entries.len(),
{
    lemma_rank(entries, id);
}

/// In ascending entries an id stands in one place.
pub proof fn lemma_one_place(entries: Seq<MessageEntry>, id: i32, at: int)
    requires
        ascending(entries),
        stands_at(entries, id, at),
    ensures
        holds(entries, id),
        place_of(entries, id) == at,
{
    let other = place_of(entries, id);
    assert(stands_at(entries, id, other));
    if other < at {
        assert(entries[other].msg.id < entries[at].msg.id);
    } else if at < other {
        assert(entries[at].msg.id < entries[other].msg.id);
    }
}

/// Adding a message keeps the order, keeps every other entry, and makes the
/// message's id known.
pub proof fn law_one_message(entries: Seq<MessageEntry>, msg: Msg)
    requires
        ascending(entries),
    ensures
        ascending(with_message(entries, msg)),
        forall|id: i32|
            #[trigger] holds(with_message(entries, msg), id) <==> holds(entries, id) || id == msg.id,
        forall|id: i32|
            id != msg.id && #[trigger] holds(entries, id) ==> with_message(entries, msg)[place_of(
                with_message(entries, msg),
                id,
            )] == entries[place_of(entries, id)],
        with_message(entries, msg)[place_of(with_message(entries, msg), msg.id)].msg == msg,
{
    let after = with_message(entries, msg);
    if holds(entries, msg.id) {
        let at = place_of(entries, msg.id);
        assert(stands_at(entries, msg.id, at));
        assert forall|i: int, j: int| 0 <= i < j < after.len() implies (#[trigger] after[i]).msg.id < (
        #[trigger] after[j]).msg.id by {
            assert(entries[i].msg.id < entries[j].msg.id);
        }
        assert forall|id: i32| #[trigger] holds(after, id) <==> holds(entries, id) || id == msg.id by {
            if holds(after, id) {
                assert(stands_at(entries, id, place_of(after, id)));
            }
            if holds(entries, id) {
                assert(stands_at(after, id, place_of(entries, id)));
            }
        }
        assert forall|id: i32| id != msg.id && #[trigger] holds(entries, id) implies after[place_of(
            after,
            id,
        )] == entries[place_of(entries, id)] by {
            let p = place_of(entries, id);
            assert(stands_at(entries, id, p));
            assert(stands_at(after, id, p));
            lemma_one_place(after, id, p);
        }
        assert(stands_at(after, msg.id, at));
        lemma_one_place(after, msg.id, at);
    } else {
        let r = rank(entries, msg.id);
        lemma_rank(entries, msg.id);
        assert forall|i: int, j: int| 0 <= i < j < after.len() implies (#[trigger] after[i]).msg.id < (
        #[trigger] after[j]).msg.id by {
            let a = if i < r { entries[i] } else if i == r { fresh(msg) } else { entries[i - 1] };
            let b = if j < r { entries[j] } else if j == r { fresh(msg) } else { entries[j - 1] };
            assert(after[i] == a && after[j] == b);
        }
        assert forall|id: i32| #[trigger] holds(after, id) <==> holds(entries, id) || id == msg.id by {
            if holds(after, id) && id != msg.id {
                let p = place_of(after, id);
                assert(stands_at(after, id, p));
                assert(stands_at(entries, id, if p < r { p } else { p - 1 }));
            }
            if holds(entries, id) {
                let p = place_of(entries, id);
                assert(stands_at(entries, id, p));
                assert(stands_at(after, id, if p < r { p } else { p + 1 }));
            }
            assert(stands_at(after, msg.id, r));
        }
        assert forall|id: i32| id != msg.id && #[trigger] holds(entries, id) implies after[place_of(
            after,
            id,
        )] == entries[place_of(entries, id)] by {
            let p = place_of(entries, id);
            assert(stands_at(entries, id, p));
            let q = if p < r { p } else { p + 1 };
            assert(stands_at(after, id, q));
            lemma_one_place(after, id, q);
        }
        assert(stands_at(after, msg.id, r));
        lemma_one_place(after, msg.id, r);
    }
}

/// Merging keeps the order of the ids, forgets no message, and brings in exactly
/// the chat's own messages.
pub proof fn law_merge(
    chat_id: Option<i64>,
    entries: Seq<MessageEntry>,
    messages: Seq<Msg>,
    given: int,
)
    requires
        ascending(entries),
        0 <= given <= messages.len(),
    ensures
        ascending(with_messages(chat_id, entries, messages, given)),
        forall|id: i32|
            #[trigger] holds(with_messages(chat_id, entries, messages, given), id) <==> holds(
                entries,
                id,
            ) || exists|i: int|
                0 <= i < given && (#[trigger] messages[i]).id == id && chat_id == Some(
                    messages[i].chat_id,
                ),
    decreases given,
{
    if given > 0 {
        law_merge(chat_id, entries, messages, given - 1);
        let earlier = with_messages(chat_id, entries, messages, given - 1);
        let msg = messages[given - 1];
        if chat_id == Some(msg.chat_id) {
            law_one_message(earlier, msg);
        }
        let after = with_messages(chat_id, entries, messages, given);
        assert forall|id: i32|
            #[trigger] holds(after, id) <==> holds(entries, id) || exists|i: int|
                0 <= i < given && (#[trigger] messages[i]).id == id && chat_id == Some(
                    messages[i].chat_id,
                ) by {
            if holds(after, id) {
                if holds(earlier, id) && !holds(entries, id) {
                    let i = choose|i: int|
                        0 <= i < given - 1 && (#[trigger] messages[i]).id == id && chat_id == Some(
                            messages[i].chat_id,
                        );
                    assert(messages[i].id == id);
                } else if !holds(earlier, id) {
                    assert(messages[given - 1].id == id);
                }
            }
            if exists|i: int|
                0 <= i < given && (#[trigger] messages[i]).id == id && chat_id == Some(
                    messages[i].chat_id,
                ) {
                let i = choose|i: int|
                    0 <= i < given && (#[trigger] messages[i]).id == id && chat_id == Some(
                        messages[i].chat_id,
                    );
                if i < given - 1 {
                    assert(holds(earlier, id));
                }
            }
            assert(holds(entries, id) ==> holds(earlier, id));
        }
    }
}

impl MessageStore {
    /// The ids rise from entry to entry, and all messages belong to the open chat.
    pub open spec fn well_formed(self) -> bool {
        &&& ascending(self.entries@)
        &&& forall|i: int|
            0 <= i < self.entries@.len() ==> self.chat_id == Some(
                (#[trigger] self.entries@[i]).msg.chat_id,
            )
    }

    /// The ids in their order.
    pub open spec fn order(self) -> Seq<i32> {
        self.entries@.map_values(|entry: MessageEntry| entry.msg.id)
    }

    /// A store without messages.
    pub fn empty(chat_id: Option<i64>) -> (store: MessageStore)
        ensures
            store.well_formed(),
            store.chat_id == chat_id,
            store.entries@.len() == 0,
    {
        MessageStore { chat_id, entries: Vec::new() }
    }

    /// Looks for an id.
    pub fn position(&self, id: i32) -> (place: Option<usize>)
        requires
            self.well_formed(),
        ensures
            match place {
                Some(at) => stands_at(self.entries@, id, at as int) && holds(self.entries@, id)
                    && at == place_of(self.entries@, id),
                None => !holds(self.entries@, id),
            },
    {
        let mut at: usize = 0;
        while at < self.entries.len()
            invariant
                self.well_formed(),
                at <= self.entries@.len(),
                forall|j: int| 0 <= j < at ==> (#[trigger] self.entries@[j]).msg.id != id,
            decreases self.entries@.len() - at,
        {
            if self.entries[at].msg.id == id {
                proof {
                    lemma_one_place(self.entries@, id, at as int);
                }
                return Some(at);
            }
            at += 1;
        }
        None
    }

    /// Where a new id belongs.
    fn place_for(&self, id: i32) -> (at: usize)
        ensures
            at == rank(self.entries@, id),
            at <= self.entries@.len(),
    {
        let mut at: usize = self.entries.len();
        let ghost all = self.entries@;
        assert(all.take(all.len() as int) =~= all);
        while at > 0 && self.entries[at - 1].msg.id >= id
            invariant
                at <= self.entries@.len(),
                all == self.entries@,
                rank(all.take(at as int), id) == rank(all, id),
            decreases at,
        {
            assert(all.take(at as int).drop_last() =~= all.take(at - 1));
            at -= 1;
        }
        assert(at > 0 ==> all.take(at as int).last() == all[at - 1]);
        at
    }

    /// Brings in one message of the open chat. Says whether its id is new, and
    /// whether it is an edit that a reader should notice.
    pub fn merge_one(&mut self, msg: Msg) -> (outcome: (bool, bool))
        requires
            old(self).well_formed(),
            old(self).chat_id == Some(msg.chat_id),
        ensures
            final(self).well_formed(),
            final(self).chat_id == old(self).chat_id,
            final(self).entries@ == with_message(old(self).entries@, msg),
            outcome.0 == !holds(old(self).entries@, msg.id),
            outcome.1 == (holds(old(self).entries@, msg.id) && noticeable_edit(
                old(self).entries@[place_of(old(self).entries@, msg.id)].msg,
                msg,
            )),
    {
        proof {
            law_one_message(self.entries@, msg);
        }
        let ghost before = self.entries@;
        match self.position(msg.id) {
            Some(at) => {
                let noticeable = msg.edited && (!self.entries[at].msg.edited || !same_text(
                    &self.entries[at].msg.text,
                    &msg.text,
                ));
                let entry = self.entries.remove(at);
                let entry = MessageEntry {
                    msg,
                    media_state: entry.media_state,
                    media_retryable: entry.media_retryable,
                    media_enabled: entry.media_enabled,
                    media_unavailable: entry.media_unavailable,
                    monospace: entry.monospace,
                };
                self.entries.insert(at, entry);
                assert(self.entries@ =~= with_message(before, msg));
                (false, noticeable)
            },
            None => {
                let at = self.place_for(msg.id);
                self.entries.insert(
                    at,
                    MessageEntry {
                        msg,
                        media_state: MediaState::NotStarted,
                        media_retryable: false,
                        media_enabled: true,
                        media_unavailable: false,
                        monospace: false,
                    },
                );
                assert(self.entries@ =~= with_message(before, msg));
                (true, false)
            },
        }
    }

    /// Takes an entry out.
    pub fn remove(&mut self, id: i32) -> (msg: Option<Msg>)
        requires
            old(self).well_formed(),
        ensures
            final(self).well_formed(),
            final(self).chat_id == old(self).chat_id,
            match msg {
                Some(found) => holds(old(self).entries@, id) && found == old(self).entries@[place_of(
                    old(self).entries@,
                    id,
                )].msg && final(self).entries@ == old(self).entries@.remove(
                    place_of(old(self).entries@, id),
                ),
                None => !holds(old(self).entries@, id) && final(self).entries@ == old(self).entries@,
            },
    {
        match self.position(id) {
            Some(at) => {
                let ghost before = self.entries@;
                let entry = self.entries.remove(at);
                proof {
                    law_removed(before, at as int);
                }
                Some(entry.msg)
            },
            None => None,
        }
    }
}

/// Taking an entry out keeps the order of the others.
pub proof fn law_removed(entries: Seq<MessageEntry>, at: int)
    requires
        ascending(entries),
        0 <= at < entries.len(),
    ensures
        ascending(entries.remove(at)),
        forall|id: i32|
            #[trigger] holds(entries.remove(at), id) <==> holds(entries, id) && id
                != entries[at].msg.id,
{
    let after = entries.remove(at);
    assert forall|i: int, j: int| 0 <= i < j < after.len() implies (#[trigger] after[i]).msg.id < (
    #[trigger] after[j]).msg.id by {
        let a = if i < at { i } else { i + 1 };
        let b = if j < at { j } else { j + 1 };
        assert(entries[a].msg.id < entries[b].msg.id);
    }
    assert forall|id: i32|
        #[trigger] holds(after, id) <==> holds(entries, id) && id != entries[at].msg.id by {
        if holds(after, id) {
            let p = place_of(after, id);
            assert(stands_at(after, id, p));
            let q = if p < at { p } else { p + 1 };
            assert(stands_at(entries, id, q));
            if q < at {
                assert(entries[q].msg.id < entries[at].msg.id);
            } else {
                assert(entries[at].msg.id < entries[q].msg.id);
            }
        }
        if holds(entries, id) && id != entries[at].msg.id {
            let p = place_of(entries, id);
            assert(stands_at(entries, id, p));
            assert(stands_at(after, id, if p < at { p } else { p - 1 }));
        }
    }
}

} // verus!
