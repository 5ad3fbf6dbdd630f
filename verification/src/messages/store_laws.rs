//! What holds of the messages that are kept: each stands at its place, a newer copy
//! replaces an older one, and what comes in is told apart from what was edited.

use vstd::prelude::*;

use crate::messages::query::{first_at, is_first, last_kept};
use crate::messages::store::{
    ascending, edited_ids, fresh, holds, law_merge, law_one_message, lemma_one_place, new_ids,
    noticeable_edit, place_of, stands_at, with_message, with_messages, MediaState, MessageEntry,
    MessageStore,
};
use crate::tg::Msg;

verus! {

/// A message that comes in is kept, at the place that its id gives it. Where it was
/// known it is replaced, and what became of its file stays. No other entry changes.
pub proof fn law_messages_are_kept_once(entries: Seq<MessageEntry>, msg: Msg, other: int)
    requires
        ascending(entries),
        0 <= other < entries.len(),
        entries[other].msg.id != msg.id,
    ensures
        exists|at: int|
            0 <= at < with_message(entries, msg).len() && (#[trigger] with_message(
                entries,
                msg,
            )[at]).msg == msg,
        exists|at: int|
            0 <= at < with_message(entries, msg).len() && #[trigger] with_message(entries, msg)[at]
                == entries[other],
        forall|i: int, j: int|
            0 <= i < j < with_message(entries, msg).len() ==> (#[trigger] with_message(
                entries,
                msg,
            )[i]).msg.id < (#[trigger] with_message(entries, msg)[j]).msg.id,
        with_message(entries, msg).len() == (if exists|i: int|
            0 <= i < entries.len() && (#[trigger] entries[i]).msg.id == msg.id {
            entries.len()
        } else {
            entries.len() + 1
        }),
{
    law_one_message(entries, msg);
    let after = with_message(entries, msg);
    let id = entries[other].msg.id;
    lemma_one_place(entries, id, other);
    assert(holds(after, id));
    assert(stands_at(after, id, place_of(after, id)));
    assert(after[place_of(after, id)] == entries[other]);
    assert(holds(after, msg.id));
    assert(stands_at(after, msg.id, place_of(after, msg.id)));
    assert(after[place_of(after, msg.id)].msg == msg);
    if exists|i: int| 0 <= i < entries.len() && (#[trigger] entries[i]).msg.id == msg.id {
        let i = choose|i: int| 0 <= i < entries.len() && (#[trigger] entries[i]).msg.id == msg.id;
        lemma_one_place(entries, msg.id, i);
    } else {
        if holds(entries, msg.id) {
            let at = place_of(entries, msg.id);
            assert(stands_at(entries, msg.id, at));
            assert(entries[at].msg.id == msg.id);
        }
        assert(!holds(entries, msg.id));
        crate::messages::store::lemma_place_is_within(entries, msg.id);
    }
}

/// A copy of a known message takes its place and leaves alone what became of its
/// file.
pub proof fn law_copies_keep_what_became_of_files(entries: Seq<MessageEntry>, msg: Msg, at: int)
    requires
        ascending(entries),
        0 <= at < entries.len(),
        entries[at].msg.id == msg.id,
    ensures
        with_message(entries, msg).len() == entries.len(),
        with_message(entries, msg)[at].msg == msg,
        with_message(entries, msg)[at].media_state == entries[at].media_state,
        with_message(entries, msg)[at].media_retryable == entries[at].media_retryable,
        with_message(entries, msg)[at].media_enabled == entries[at].media_enabled,
        with_message(entries, msg)[at].media_unavailable == entries[at].media_unavailable,
        with_message(entries, msg)[at].monospace == entries[at].monospace,
        forall|i: int|
            0 <= i < entries.len() && i != at ==> #[trigger] with_message(entries, msg)[i]
                == entries[i],
{
    lemma_one_place(entries, msg.id, at);
}

/// The file of a new message was not asked for yet, and its row can be used.
pub proof fn law_new_messages_are_untouched(msg: Msg)
    ensures
        fresh(msg).msg == msg,
        fresh(msg).media_state == MediaState::NotStarted,
        !fresh(msg).media_retryable,
        fresh(msg).media_enabled,
        !fresh(msg).media_unavailable,
        !fresh(msg).monospace,
{
}

/// Messages of other chats change nothing, and the last copy of a message is the one
/// that is kept.
pub proof fn law_last_copy_is_kept(
    chat_id: Option<i64>,
    entries: Seq<MessageEntry>,
    messages: Seq<Msg>,
    given: int,
    i: int,
)
    requires
        ascending(entries),
        0 <= i < given <= messages.len(),
        chat_id == Some(messages[i].chat_id),
        forall|j: int|
            i < j < given && chat_id == Some((#[trigger] messages[j]).chat_id) ==> messages[j].id
                != messages[i].id,
    ensures
        exists|at: int|
            0 <= at < with_messages(chat_id, entries, messages, given).len() && (
            #[trigger] with_messages(chat_id, entries, messages, given)[at]).msg == messages[i],
    decreases given,
{
    let after = with_messages(chat_id, entries, messages, given);
    let earlier = with_messages(chat_id, entries, messages, given - 1);
    law_merge(chat_id, entries, messages, given - 1);
    let msg = messages[given - 1];
    if i == given - 1 {
        law_one_message(earlier, msg);
        assert(holds(after, msg.id));
        assert(stands_at(after, msg.id, place_of(after, msg.id)));
    } else {
        law_last_copy_is_kept(chat_id, entries, messages, given - 1, i);
        if chat_id == Some(msg.chat_id) {
            let at = choose|at: int|
                0 <= at < earlier.len() && (#[trigger] earlier[at]).msg == messages[i];
            law_one_message(earlier, msg);
            lemma_one_place(earlier, messages[i].id, at);
            assert(holds(after, messages[i].id));
            assert(stands_at(after, messages[i].id, place_of(after, messages[i].id)));
        }
    }
}

/// Where nothing of the chat comes in, nothing changes and nothing is told.
pub proof fn law_other_chats_change_nothing(
    chat_id: Option<i64>,
    entries: Seq<MessageEntry>,
    messages: Seq<Msg>,
    given: int,
)
    requires
        0 <= given <= messages.len(),
        forall|j: int| 0 <= j < given ==> chat_id != Some((#[trigger] messages[j]).chat_id),
    ensures
        with_messages(chat_id, entries, messages, given) == entries,
        new_ids(chat_id, entries, messages, given) == Seq::<i32>::empty(),
        edited_ids(chat_id, entries, messages, given) == Seq::<i32>::empty(),
    decreases given,
{
    if given > 0 {
        law_other_chats_change_nothing(chat_id, entries, messages, given - 1);
        assert(chat_id != Some(messages[given - 1].chat_id));
    }
}

/// A message is new exactly where its id was not known before.
pub proof fn law_new_messages_were_unknown(
    chat_id: Option<i64>,
    entries: Seq<MessageEntry>,
    messages: Seq<Msg>,
    given: int,
    id: i32,
)
    requires
        ascending(entries),
        0 <= given <= messages.len(),
    ensures
        new_ids(chat_id, entries, messages, given).contains(id) <==> (forall|i: int|
            0 <= i < entries.len() ==> (#[trigger] entries[i]).msg.id != id) && exists|j: int|
            0 <= j < given && (#[trigger] messages[j]).id == id && chat_id == Some(
                messages[j].chat_id,
            ),
    decreases given,
{
    let ids = new_ids(chat_id, entries, messages, given);
    let unknown = forall|i: int| 0 <= i < entries.len() ==> (#[trigger] entries[i]).msg.id != id;
    assert(unknown <==> !holds(entries, id)) by {
        if holds(entries, id) {
            assert(stands_at(entries, id, place_of(entries, id)));
        } else {
            assert forall|i: int| 0 <= i < entries.len() implies (#[trigger] entries[i]).msg.id
                != id by {
                assert(!stands_at(entries, id, i));
            }
        }
    }
    if given > 0 {
        law_new_messages_were_unknown(chat_id, entries, messages, given - 1, id);
        law_merge(chat_id, entries, messages, given - 1);
        let earlier = new_ids(chat_id, entries, messages, given - 1);
        let msg = messages[given - 1];
        let known = with_messages(chat_id, entries, messages, given - 1);
        if ids.contains(id) {
            let p = ids.index_of(id);
            if p < earlier.len() {
                assert(earlier[p] == id);
                assert(earlier.contains(id));
            } else {
                assert(msg.id == id);
                assert(!holds(known, id));
            }
        }
        if earlier.contains(id) {
            assert(ids[earlier.index_of(id)] == id);
        }
        if unknown && msg.id == id && chat_id == Some(msg.chat_id) && !earlier.contains(id) {
            assert(!holds(known, id));
            assert(ids[ids.len() - 1] == id);
        }
    }
}

/// An edit is told when the message says so and it was not known as edited, or its
/// text is another one now.
pub proof fn law_edits_are_noticed(before: Msg, after: Msg)
    ensures
        !after.edited ==> !noticeable_edit(before, after),
        after.edited && !before.edited ==> noticeable_edit(before, after),
        after.edited && before.edited ==> (noticeable_edit(before, after) <==> before.text@
            != after.text@),
{
}

/// Of one message that comes in it is told that it was edited exactly where it was
/// known with another text or as not edited.
pub proof fn law_one_edit_is_told(
    chat_id: Option<i64>,
    entries: Seq<MessageEntry>,
    messages: Seq<Msg>,
    at: int,
)
    requires
        ascending(entries),
        messages.len() == 1,
        chat_id == Some(messages[0].chat_id),
        0 <= at < entries.len(),
        entries[at].msg.id == messages[0].id,
    ensures
        edited_ids(chat_id, entries, messages, 1) == (if messages[0].edited && (
        !entries[at].msg.edited || entries[at].msg.text@ != messages[0].text@) {
            seq![messages[0].id]
        } else {
            Seq::empty()
        }),
        new_ids(chat_id, entries, messages, 1) == Seq::<i32>::empty(),
{
    reveal_with_fuel(edited_ids, 2);
    reveal_with_fuel(new_ids, 2);
    reveal_with_fuel(with_messages, 2);
    lemma_one_place(entries, messages[0].id, at);
    assert(edited_ids(chat_id, entries, messages, 0) =~= Seq::<i32>::empty());
}

/// The list of ids has the id of each message at its place.
pub proof fn law_ids_follow_the_messages(store: MessageStore, i: int)
    requires
        0 <= i < store.entries@.len(),
    ensures
        store.order().len() == store.entries@.len(),
        store.order()[i] == store.entries@[i].msg.id,
{
}

/// The last message that is not left out is the last of those: all after it are left
/// out.
pub proof fn law_last_message_is_last(
    entries: Seq<MessageEntry>,
    left_out: spec_fn(i32) -> bool,
)
    ensures
        -1 <= last_kept(entries, left_out) < entries.len(),
        last_kept(entries, left_out) >= 0 ==> !left_out(
            entries[last_kept(entries, left_out)].msg.id,
        ),
        forall|i: int|
            last_kept(entries, left_out) < i < entries.len() ==> left_out(
                (#[trigger] entries[i]).msg.id,
            ),
    decreases entries.len(),
{
    if entries.len() > 0 && left_out(entries.last().msg.id) {
        law_last_message_is_last(entries.drop_last(), left_out);
        assert forall|i: int| last_kept(entries, left_out) < i < entries.len() implies left_out(
            (#[trigger] entries[i]).msg.id,
        ) by {
            if i < entries.len() - 1 {
                assert(entries.drop_last()[i] == entries[i]);
            }
        }
    }
}

/// What is found first is wanted, and nothing before it is. Nothing is found only
/// where nothing is wanted.
pub proof fn law_first_message_is_first(
    entries: Seq<MessageEntry>,
    wanted: spec_fn(Msg) -> bool,
    found: Option<i32>,
    i: int,
)
    requires
        is_first(entries, wanted, found),
        0 <= i < entries.len(),
        wanted(entries[i].msg),
    ensures
        found is Some,
        exists|at: int|
            0 <= at <= i && (#[trigger] entries[at]).msg.id == found->0 && wanted(entries[at].msg),
{
    if found is Some {
        let id = found->0;
        let at = choose|at: int| #[trigger]
            first_at(entries, wanted, at) && entries[at].msg.id == id;
        assert(entries[at].msg.id == id && wanted(entries[at].msg));
        assert(at <= i) by {
            if i < at {
                assert(!wanted(entries[i].msg));
            }
        }
    }
}

/// In a sound store the messages are of one chat, each id once, in order.
pub proof fn law_stores_are_sound(store: MessageStore, i: int, j: int)
    requires
        store.well_formed(),
    ensures
        0 <= i < j < store.entries@.len() ==> store.entries@[i].msg.id < store.entries@[j].msg.id,
        0 <= i < store.entries@.len() ==> store.chat_id == Some(store.entries@[i].msg.chat_id),
{
}

} // verus!
