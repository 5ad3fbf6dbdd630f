//! The files of messages, and other things that the list keeps about a message.

use vstd::prelude::*;

use crate::messages::store::{holds, place_of, stands_at, MediaState, MessageEntry, MessageStore};
use crate::messages::view::{AuxLine, MessagesView, Waiting};
use crate::text::{contains, contains_text};
use crate::tg::{MediaKind, Msg};

verus! {

/// Whether the file of a message may be fetched: not while it is being fetched, not
/// once it is there, and again after a failure only where that may pass.
pub open spec fn may_start(entry: MessageEntry) -> bool {
    match entry.media_state {
        MediaState::NotStarted => true,
        MediaState::Failed => entry.media_retryable,
        _ => false,
    }
}

/// The lines that do not belong to a message.
pub open spec fn lines_of_others(lines: Seq<AuxLine>, id: i32) -> Seq<AuxLine> {
    lines.filter(|line: AuxLine| line.id != id)
}

/// Those that do not wait for a message.
pub open spec fn waiting_for_others(waiting: Seq<Waiting>, id: i32) -> Seq<Waiting> {
    waiting.filter(|one: Waiting| one.id != id)
}

/// Those that wait for a message.
pub open spec fn waiting_for(waiting: Seq<Waiting>, id: i32) -> Seq<Waiting> {
    waiting.filter(|one: Waiting| one.id == id)
}

/// Whether one of the texts below a message contains a text.
pub open spec fn line_contains(lines: Seq<AuxLine>, id: i32, needle: Seq<char>) -> bool {
    exists|i: int|
        0 <= i < lines.len() && (#[trigger] lines[i]).id == id && contains_text(
            lines[i].text@,
            needle,
        )
}

/// The entries of a list in which the entry of one message is replaced.
pub open spec fn with_entry(entries: Seq<MessageEntry>, id: i32, entry: MessageEntry) -> Seq<
    MessageEntry,
> {
    entries.update(place_of(entries, id), entry)
}

impl MessageStore {
    /// Takes the entry at `at` out for a moment: it is put back with changes.
    fn take(&mut self, at: usize) -> (entry: MessageEntry)
        requires
            at < old(self).entries@.len(),
        ensures
            entry == old(self).entries@[at as int],
            final(self).chat_id == old(self).chat_id,
            final(self).entries@ == old(self).entries@.remove(at as int),
    {
        self.entries.remove(at)
    }

    /// Puts an entry back where it was taken out.
    fn put_back(&mut self, at: usize, entry: MessageEntry, Ghost(before): Ghost<MessageStore>)
        requires
            before.well_formed(),
            at < before.entries@.len(),
            old(self).chat_id == before.chat_id,
            old(self).entries@ == before.entries@.remove(at as int),
            entry.msg.id == before.entries@[at as int].msg.id,
            entry.msg.chat_id == before.entries@[at as int].msg.chat_id,
        ensures
            final(self).well_formed(),
            final(self).chat_id == before.chat_id,
            final(self).entries@ == before.entries@.update(at as int, entry),
            forall|id: i32| #[trigger]
                holds(final(self).entries@, id) <==> holds(before.entries@, id),
    {
        self.entries.insert(at, entry);
        let ghost old_entries = before.entries@;
        let ghost after = self.entries@;
        assert(after =~= old_entries.update(at as int, entry));
        assert forall|i: int, j: int| 0 <= i < j < after.len() implies (#[trigger] after[i]).msg.id < (
        #[trigger] after[j]).msg.id by {
            assert(old_entries[i].msg.id < old_entries[j].msg.id);
        }
        assert forall|id: i32| #[trigger] holds(after, id) <==> holds(old_entries, id) by {
            if holds(after, id) {
                assert(stands_at(after, id, place_of(after, id)));
                assert(stands_at(old_entries, id, place_of(after, id)));
            }
            if holds(old_entries, id) {
                assert(stands_at(old_entries, id, place_of(old_entries, id)));
                assert(stands_at(after, id, place_of(old_entries, id)));
            }
        }
        assert forall|i: int| 0 <= i < after.len() implies self.chat_id == Some(
            (#[trigger] after[i]).msg.chat_id,
        ) by {
            assert(before.chat_id == Some(old_entries[i].msg.chat_id));
        }
    }

    /// Begins to fetch the file of a message, where it may be fetched.
    pub fn begin_media(&mut self, id: i32) -> (kind: Option<MediaKind>)
        requires
            old(self).well_formed(),
        ensures
            final(self).well_formed(),
            final(self).chat_id == old(self).chat_id,
            kind is Some <==> holds(old(self).entries@, id) && may_start(
                old(self).entries@[place_of(old(self).entries@, id)],
            ) && old(self).entries@[place_of(old(self).entries@, id)].msg.media is Some,
            kind is Some ==> kind == old(self).entries@[place_of(old(self).entries@, id)].msg.media,
            final(self).entries@ == (if kind is Some {
                with_entry(
                    old(self).entries@,
                    id,
                    MessageEntry {
                        media_state: MediaState::InFlight,
                        media_retryable: false,
                        media_enabled: false,
                        ..old(self).entries@[place_of(old(self).entries@, id)]
                    },
                )
            } else {
                old(self).entries@
            }),
    {
        let at: usize = match self.position(id) {
            Some(at) => at,
            None => {
                return None;
            },
        };
        let retryable = self.entries[at].media_retryable;
        let startable = match &self.entries[at].media_state {
            MediaState::NotStarted => true,
            MediaState::Failed => retryable,
            _ => false,
        };
        let kind = self.entries[at].msg.media;
        if !startable || kind.is_none() {
            return None;
        }
        let ghost before = *self;
        let entry = self.take(at);
        self.put_back(
            at,
            MessageEntry {
                msg: entry.msg,
                media_state: MediaState::InFlight,
                media_retryable: false,
                media_enabled: false,
                media_unavailable: entry.media_unavailable,
                monospace: entry.monospace,
            },
            Ghost(before),
        );
        kind
    }

    /// The file of a message is there. `enable` says that its button can be pressed
    /// again.
    pub fn finish_media(&mut self, id: i32, path: std::path::PathBuf, enable: bool) -> (known: bool)
        requires
            old(self).well_formed(),
        ensures
            final(self).well_formed(),
            final(self).chat_id == old(self).chat_id,
            known == holds(old(self).entries@, id),
            final(self).entries@ == (if known {
                with_entry(
                    old(self).entries@,
                    id,
                    MessageEntry {
                        media_state: MediaState::Done(path),
                        media_enabled: enable || old(self).entries@[place_of(
                            old(self).entries@,
                            id,
                        )].media_enabled,
                        ..old(self).entries@[place_of(old(self).entries@, id)]
                    },
                )
            } else {
                old(self).entries@
            }),
    {
        let at: usize = match self.position(id) {
            Some(at) => at,
            None => {
                return false;
            },
        };
        let ghost before = *self;
        let entry = self.take(at);
        self.put_back(
            at,
            MessageEntry {
                msg: entry.msg,
                media_state: MediaState::Done(path),
                media_retryable: entry.media_retryable,
                media_enabled: enable || entry.media_enabled,
                media_unavailable: entry.media_unavailable,
                monospace: entry.monospace,
            },
            Ghost(before),
        );
        true
    }

    /// The file of a message could not be fetched. The button of a recording or a
    /// document says so, and can be pressed again where that may help.
    pub fn fail_media(&mut self, id: i32, retryable: bool) -> (known: bool)
        requires
            old(self).well_formed(),
        ensures
            final(self).well_formed(),
            final(self).chat_id == old(self).chat_id,
            known == holds(old(self).entries@, id),
            final(self).entries@ == (if known {
                with_entry(
                    old(self).entries@,
                    id,
                    failed(old(self).entries@[place_of(old(self).entries@, id)], retryable),
                )
            } else {
                old(self).entries@
            }),
    {
        let at: usize = match self.position(id) {
            Some(at) => at,
            None => {
                return false;
            },
        };
        let ghost before = *self;
        let entry = self.take(at);
        let labelled = entry.msg.media == Some(MediaKind::Voice) || entry.msg.media == Some(
            MediaKind::Document,
        );
        self.put_back(
            at,
            MessageEntry {
                msg: entry.msg,
                media_state: MediaState::Failed,
                media_retryable: retryable,
                media_enabled: if labelled { retryable } else { entry.media_enabled },
                media_unavailable: labelled || entry.media_unavailable,
                monospace: entry.monospace,
            },
            Ghost(before),
        );
        true
    }

    /// Marks a message as deleted. It stays in the list.
    pub fn mark_deleted(&mut self, id: i32) -> (known: bool)
        requires
            old(self).well_formed(),
        ensures
            final(self).well_formed(),
            final(self).chat_id == old(self).chat_id,
            known == holds(old(self).entries@, id),
            final(self).entries@ == (if known {
                with_entry(
                    old(self).entries@,
                    id,
                    MessageEntry {
                        msg: Msg {
                            deleted: true,
                            ..old(self).entries@[place_of(old(self).entries@, id)].msg
                        },
                        ..old(self).entries@[place_of(old(self).entries@, id)]
                    },
                )
            } else {
                old(self).entries@
            }),
    {
        let at: usize = match self.position(id) {
            Some(at) => at,
            None => {
                return false;
            },
        };
        let ghost before = *self;
        let mut entry = self.take(at);
        entry.msg.deleted = true;
        self.put_back(at, entry, Ghost(before));
        true
    }

    /// Sets a message in a fixed-width font, or not.
    pub fn set_monospace(&mut self, id: i32, monospace: bool)
        requires
            old(self).well_formed(),
        ensures
            final(self).well_formed(),
            final(self).chat_id == old(self).chat_id,
            final(self).entries@ == (if holds(old(self).entries@, id) {
                with_entry(
                    old(self).entries@,
                    id,
                    MessageEntry {
                        monospace,
                        ..old(self).entries@[place_of(old(self).entries@, id)]
                    },
                )
            } else {
                old(self).entries@
            }),
    {
        let at: usize = match self.position(id) {
            Some(at) => at,
            None => {
                return;
            },
        };
        let ghost before = *self;
        let mut entry = self.take(at);
        entry.monospace = monospace;
        self.put_back(at, entry, Ghost(before));
    }
}

/// The entry of a message whose file could not be fetched.
pub open spec fn failed(entry: MessageEntry, retryable: bool) -> MessageEntry {
    let labelled = entry.msg.media == Some(MediaKind::Voice) || entry.msg.media == Some(
        MediaKind::Document,
    );
    MessageEntry {
        media_state: MediaState::Failed,
        media_retryable: retryable,
        media_enabled: if labelled { retryable } else { entry.media_enabled },
        media_unavailable: labelled || entry.media_unavailable,
        ..entry
    }
}

/// Takes out what waits for a message.
fn take_waiting(waiting: &mut Vec<Waiting>, id: i32) -> (taken: Vec<Waiting>)
    ensures
        final(waiting)@ == waiting_for_others(old(waiting)@, id),
        taken@ == waiting_for(old(waiting)@, id),
{
    let ghost all = waiting@;
    let ghost others = |one: Waiting| one.id != id;
    let ghost its = |one: Waiting| one.id == id;
    let mut kept: Vec<Waiting> = Vec::new();
    let mut taken: Vec<Waiting> = Vec::new();
    let mut i: usize = 0;
    proof {
        reveal(Seq::filter);
        assert(all.take(0) =~= Seq::<Waiting>::empty());
    }
    while i < waiting.len()
        invariant
            i <= waiting@.len(),
            waiting@ == all,
            others == (|one: Waiting| one.id != id),
            its == (|one: Waiting| one.id == id),
            kept@ == all.take(i as int).filter(others),
            taken@ == all.take(i as int).filter(its),
        decreases waiting@.len() - i,
    {
        proof {
            reveal(Seq::filter);
            assert(all.take(i + 1).drop_last() =~= all.take(i as int));
        }
        let one = waiting[i];
        if one.id == id {
            taken.push(one);
        } else {
            kept.push(one);
        }
        i += 1;
    }
    assert(all.take(i as int) =~= all);
    *waiting = kept;
    taken
}

/// Drops the lines of a message.
pub(crate) fn drop_lines(lines: &mut Vec<AuxLine>, id: i32)
    ensures
        final(lines)@ == lines_of_others(old(lines)@, id),
{
    let ghost all = lines@;
    let ghost others = |line: AuxLine| line.id != id;
    let mut kept: Vec<AuxLine> = Vec::new();
    proof {
        reveal(Seq::filter);
        assert(all.take(0) =~= Seq::<AuxLine>::empty());
    }
    let total: usize = lines.len();
    let mut i: usize = 0;
    while i < total
        invariant
            total == all.len(),
            i <= total,
            lines@ == all.skip(i as int),
            others == (|line: AuxLine| line.id != id),
            kept@ == all.take(i as int).filter(others),
        decreases total - i,
    {
        proof {
            reveal(Seq::filter);
            assert(all.take(i + 1).drop_last() =~= all.take(i as int));
            assert(lines@[0] == all[i as int]);
            assert(lines@.remove(0) =~= all.skip(i + 1));
        }
        let line = lines.remove(0);
        if line.id != id {
            kept.push(line);
        }
        i += 1;
    }
    assert(all.take(i as int) =~= all);
    *lines = kept;
}

/// What becomes of something that wants the file of a message.
#[derive(Debug, Clone, Copy, PartialEq, Eq, Structural)]
pub enum Continuation {
    /// The file is there.
    Now,
    /// It waits.
    Queued,
    /// There is no such message.
    Missing,
}

impl MessagesView {
    pub fn begin_media(&mut self, msg_id: i32) -> (kind: Option<MediaKind>)
        requires
            old(self).well_formed(),
        ensures
            final(self).well_formed(),
            kind is Some <==> old(self).knows(msg_id) && may_start(old(self).entry(msg_id)) && old(
                self,
            ).entry(msg_id).msg.media is Some,
            kind is Some ==> kind == old(self).entry(msg_id).msg.media,
            final(self).store.chat_id == old(self).store.chat_id,
            final(self).store.entries@ == (if kind is Some {
                with_entry(
                    old(self).store.entries@,
                    msg_id,
                    MessageEntry {
                        media_state: MediaState::InFlight,
                        media_retryable: false,
                        media_enabled: false,
                        ..old(self).entry(msg_id)
                    },
                )
            } else {
                old(self).store.entries@
            }),
            *final(self) == (MessagesView { store: final(self).store, ..*old(self) }),
    {
        self.store.begin_media(msg_id)
    }

    /// A picture was loaded. Where the list is at its end it stays there. Says
    /// whether the message is in the list.
    pub fn finish_image(&mut self, msg_id: i32, path: std::path::PathBuf) -> (known: bool)
        requires
            old(self).well_formed(),
        ensures
            final(self).well_formed(),
            known == old(self).knows(msg_id),
            final(self).store.chat_id == old(self).store.chat_id,
            final(self).store.entries@ == (if known {
                with_entry(
                    old(self).store.entries@,
                    msg_id,
                    MessageEntry {
                        media_state: MediaState::Done(path),
                        ..old(self).entry(msg_id)
                    },
                )
            } else {
                old(self).store.entries@
            }),
            final(self).scroll == (crate::messages::view::Scroll {
                suppress_paging: if crate::messages::history::sticks(old(self).scroll) {
                    known
                } else {
                    old(self).scroll.suppress_paging
                },
                ..old(self).scroll
            }),
            *final(self) == (MessagesView {
                store: final(self).store,
                scroll: final(self).scroll,
                ..*old(self)
            }),
    {
        let before = self.scroll;
        let known = self.store.finish_media(msg_id, path, false);
        let suppress_paging = if before.stick_to_bottom && !before.detached {
            known
        } else {
            before.suppress_paging
        };
        self.scroll = crate::messages::view::Scroll { suppress_paging, ..before };
        known
    }

    /// A file was loaded. Returns what waited for it.
    pub fn finish_media_path(&mut self, msg_id: i32, path: std::path::PathBuf) -> (ready: Option<
        Vec<Waiting>,
    >)
        requires
            old(self).well_formed(),
        ensures
            final(self).well_formed(),
            ready is Some <==> old(self).knows(msg_id),
            ready matches Some(tokens) ==> tokens@ == waiting_for(old(self).media_ready@, msg_id),
            final(self).media_ready@ == (if ready is Some {
                waiting_for_others(old(self).media_ready@, msg_id)
            } else {
                old(self).media_ready@
            }),
            final(self).store.chat_id == old(self).store.chat_id,
            final(self).store.entries@ == (if ready is Some {
                with_entry(
                    old(self).store.entries@,
                    msg_id,
                    MessageEntry {
                        media_state: MediaState::Done(path),
                        media_enabled: true,
                        ..old(self).entry(msg_id)
                    },
                )
            } else {
                old(self).store.entries@
            }),
            *final(self) == (MessagesView {
                store: final(self).store,
                media_ready: final(self).media_ready,
                ..*old(self)
            }),
    {
        if !self.store.finish_media(msg_id, path, true) {
            return None;
        }
        Some(take_waiting(&mut self.media_ready, msg_id))
    }

    /// Something wants the file of a message.
    pub fn on_media_ready(&mut self, msg_id: i32, token: u64) -> (outcome: Continuation)
        requires
            old(self).well_formed(),
        ensures
            final(self).well_formed(),
            outcome == (if !old(self).knows(msg_id) {
                Continuation::Missing
            } else if old(self).entry(msg_id).media_state is Done {
                Continuation::Now
            } else {
                Continuation::Queued
            }),
            final(self).media_ready@ == (if outcome == Continuation::Queued {
                old(self).media_ready@.push(Waiting { id: msg_id, token })
            } else {
                old(self).media_ready@
            }),
            *final(self) == (MessagesView { media_ready: final(self).media_ready, ..*old(self) }),
    {
        let outcome = match self.store.position(msg_id) {
            Some(at) => match &self.store.entries[at].media_state {
                MediaState::Done(_) => Continuation::Now,
                _ => Continuation::Queued,
            },
            None => Continuation::Missing,
        };
        if outcome == Continuation::Queued {
            self.media_ready.push(Waiting { id: msg_id, token });
        }
        outcome
    }

    pub fn has_media_continuation(&self, msg_id: i32) -> (answer: bool)
        ensures
            answer == exists|i: int|
                0 <= i < self.media_ready@.len() && (#[trigger] self.media_ready@[i]).id == msg_id,
    {
        let mut i: usize = 0;
        while i < self.media_ready.len()
            invariant
                i <= self.media_ready@.len(),
                forall|j: int| 0 <= j < i ==> (#[trigger] self.media_ready@[j]).id != msg_id,
            decreases self.media_ready@.len() - i,
        {
            if self.media_ready[i].id == msg_id {
                return true;
            }
            i += 1;
        }
        false
    }

    pub fn drop_media_continuations(&mut self, msg_id: i32)
        ensures
            final(self).media_ready@ == waiting_for_others(old(self).media_ready@, msg_id),
            *final(self) == (MessagesView { media_ready: final(self).media_ready, ..*old(self) }),
    {
        let _dropped = take_waiting(&mut self.media_ready, msg_id);
    }

    /// A file could not be loaded: what waited for it is dropped.
    pub fn fail_media(&mut self, msg_id: i32, retryable: bool) -> (known: bool)
        requires
            old(self).well_formed(),
        ensures
            final(self).well_formed(),
            known == old(self).knows(msg_id),
            final(self).media_ready@ == waiting_for_others(old(self).media_ready@, msg_id),
            final(self).store.chat_id == old(self).store.chat_id,
            final(self).store.entries@ == (if known {
                with_entry(
                    old(self).store.entries@,
                    msg_id,
                    failed(old(self).entry(msg_id), retryable),
                )
            } else {
                old(self).store.entries@
            }),
            *final(self) == (MessagesView {
                store: final(self).store,
                media_ready: final(self).media_ready,
                ..*old(self)
            }),
    {
        let _dropped = take_waiting(&mut self.media_ready, msg_id);
        self.store.fail_media(msg_id, retryable)
    }

    pub fn mark_deleted(&mut self, msg_id: i32) -> (known: bool)
        requires
            old(self).well_formed(),
        ensures
            final(self).well_formed(),
            known == old(self).knows(msg_id),
            final(self).store.chat_id == old(self).store.chat_id,
            final(self).store.entries@ == (if known {
                with_entry(
                    old(self).store.entries@,
                    msg_id,
                    MessageEntry {
                        msg: Msg { deleted: true, ..old(self).entry(msg_id).msg },
                        ..old(self).entry(msg_id)
                    },
                )
            } else {
                old(self).store.entries@
            }),
            *final(self) == (MessagesView { store: final(self).store, ..*old(self) }),
    {
        self.store.mark_deleted(msg_id)
    }

    pub fn set_monospace(&mut self, msg_id: i32, monospace: bool)
        requires
            old(self).well_formed(),
        ensures
            final(self).well_formed(),
            final(self).store.chat_id == old(self).store.chat_id,
            final(self).store.entries@ == (if old(self).knows(msg_id) {
                with_entry(
                    old(self).store.entries@,
                    msg_id,
                    MessageEntry { monospace, ..old(self).entry(msg_id) },
                )
            } else {
                old(self).store.entries@
            }),
            *final(self) == (MessagesView { store: final(self).store, ..*old(self) }),
    {
        self.store.set_monospace(msg_id, monospace);
    }

    /// Shows below a message what the assistant found out about it.
    pub fn render_aux(
        &mut self,
        msg_id: i32,
        transcript: Option<&str>,
        translation: Option<&str>,
        summary: Option<&str>,
    ) -> (known: bool)
        requires
            old(self).well_formed(),
        ensures
            final(self).well_formed(),
            known == old(self).knows(msg_id),
            !known ==> final(self).aux@ == old(self).aux@,
            known ==> {
                let kept = lines_of_others(old(self).aux@, msg_id);
                let added = aux_texts(transcript, translation, summary);
                &&& final(self).aux@.len() == kept.len() + added.len()
                &&& final(self).aux@.take(kept.len() as int) == kept
                &&& forall|i: int|
                    0 <= i < added.len() ==> {
                        let line = #[trigger] final(self).aux@[kept.len() + i];
                        line.id == msg_id && !line.error && line.text@ == added[i]
                    }
            },
            *final(self) == (MessagesView { aux: final(self).aux, ..*old(self) }),
    {
        if self.store.position(msg_id).is_none() {
            return false;
        }
        drop_lines(&mut self.aux, msg_id);
        let ghost kept = self.aux@;
        push_aux(&mut self.aux, msg_id, "transcript: ", transcript);
        push_aux(&mut self.aux, msg_id, "translation: ", translation);
        push_aux(&mut self.aux, msg_id, "summary: ", summary);
        assert(self.aux@.take(kept.len() as int) =~= kept);
        true
    }

    pub fn show_aux_error(&mut self, msg_id: i32, message: &str) -> (known: bool)
        requires
            old(self).well_formed(),
        ensures
            final(self).well_formed(),
            known == old(self).knows(msg_id),
            !known ==> final(self).aux@ == old(self).aux@,
            known ==> {
                &&& final(self).aux@.len() == old(self).aux@.len() + 1
                &&& final(self).aux@.drop_last() == old(self).aux@
                &&& final(self).aux@.last().id == msg_id
                &&& final(self).aux@.last().text@ == message@
                &&& final(self).aux@.last().error
            },
            *final(self) == (MessagesView { aux: final(self).aux, ..*old(self) }),
    {
        if self.store.position(msg_id).is_none() {
            return false;
        }
        let ghost before = self.aux@;
        self.aux.push(AuxLine { id: msg_id, text: message.to_owned(), error: true });
        assert(self.aux@.drop_last() =~= before);
        true
    }

    pub fn clear_aux(&mut self, msg_id: i32)
        ensures
            final(self).aux@ == lines_of_others(old(self).aux@, msg_id),
            *final(self) == (MessagesView { aux: final(self).aux, ..*old(self) }),
    {
        drop_lines(&mut self.aux, msg_id);
    }

    pub fn aux_contains(&self, msg_id: i32, needle: &str) -> (found: bool)
        ensures
            found == line_contains(self.aux@, msg_id, needle@),
    {
        let mut i: usize = 0;
        while i < self.aux.len()
            invariant
                i <= self.aux@.len(),
                forall|j: int|
                    0 <= j < i ==> !((#[trigger] self.aux@[j]).id == msg_id && contains_text(
                        self.aux@[j].text@,
                        needle@,
                    )),
            decreases self.aux@.len() - i,
        {
            if self.aux[i].id == msg_id && contains(&self.aux[i].text, needle) {
                assert(self.aux@[i as int].id == msg_id);
                return true;
            }
            i += 1;
        }
        false
    }
}

/// What is shown of what the assistant found out.
pub open spec fn aux_texts(
    transcript: Option<&str>,
    translation: Option<&str>,
    summary: Option<&str>,
) -> Seq<Seq<char>> {
    aux_text("transcript: "@, transcript) + aux_text("translation: "@, translation) + aux_text(
        "summary: "@,
        summary,
    )
}

/// What is shown of one thing that the assistant found out.
pub open spec fn aux_text(prefix: Seq<char>, value: Option<&str>) -> Seq<Seq<char>> {
    match value {
        Some(text) => seq![prefix + text@],
        None => Seq::empty(),
    }
}

fn push_aux(lines: &mut Vec<AuxLine>, id: i32, prefix: &str, value: Option<&str>)
    ensures
        final(lines)@.len() == old(lines)@.len() + aux_text(prefix@, value).len(),
        final(lines)@.take(old(lines)@.len() as int) == old(lines)@,
        forall|i: int|
            0 <= i < old(lines)@.len() ==> #[trigger] final(lines)@[i] == old(lines)@[i],
        value matches Some(text) ==> {
            let line = final(lines)@[old(lines)@.len() as int];
            line.id == id && !line.error && line.text@ == prefix@ + text@
        },
{
    let ghost before = lines@;
    if let Some(text) = value {
        let mut line = prefix.to_owned();
        line.push_str(text);
        lines.push(AuxLine { id, text: line, error: false });
    }
    assert(lines@.take(before.len() as int) =~= before);
}

/// While the file of a message is being fetched it cannot be fetched a second time,
/// and once it is there it is not fetched again.
pub proof fn law_files_are_fetched_once(entry: MessageEntry)
    requires
        entry.media_state is InFlight || entry.media_state is Done,
    ensures
        !may_start(entry),
{
}

} // verus!
