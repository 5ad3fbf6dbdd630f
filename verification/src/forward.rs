//! The dialog in which messages are forwarded.

use std::collections::HashSet;

use vstd::prelude::*;

use crate::text::{
    contains, contains_text, digits, lowercase, lowercased, push_number, same_text, trim, trimmed,
};
use crate::tg::ChatSummary;

verus! {

/// Messages that are to be forwarded, and where to.
#[derive(Debug, PartialEq, Eq)]
pub struct ForwardRequest {
    pub source_chat: i64,
    pub ids: Vec<i32>,
    pub targets: Vec<i64>,
    pub generation: u64,
}

/// What can be asked for from the dialog.
#[derive(Debug, PartialEq, Eq)]
pub enum ForwardAction {
    Submit(ForwardRequest),
    Close,
}

/// What the button that forwards says.
#[derive(Debug, Clone, Copy, PartialEq, Eq, Structural)]
pub enum SubmitLabel {
    Forward,
    Forwarding,
    Retry,
}

impl SubmitLabel {
    pub fn text(self) -> (text: &'static str)
        ensures
            text@ == (match self {
                SubmitLabel::Forward => "Forward"@,
                SubmitLabel::Forwarding => "Forwarding…"@,
                SubmitLabel::Retry => "Retry"@,
            }),
    {
        match self {
            SubmitLabel::Forward => "Forward",
            SubmitLabel::Forwarding => "Forwarding…",
            SubmitLabel::Retry => "Retry",
        }
    }
}

/// Which chats a query finds: those with it in their title or their username.
pub open spec fn found_by(query: Seq<char>) -> spec_fn(ChatSummary) -> bool {
    |chat: ChatSummary|
        lowercased(trimmed(query)).len() == 0 || contains_text(
            lowercased(chat.title@),
            lowercased(trimmed(query)),
        ) || contains_text(lowercased(chat.username@), lowercased(trimmed(query)))
}

/// Whether a chat is chosen.
pub open spec fn chosen(selected: Set<i64>) -> spec_fn(ChatSummary) -> bool {
    |chat: ChatSummary| selected.contains(chat.id)
}

/// The ids of the chosen chats, in the order of the chats.
pub open spec fn chosen_ids(dialogs: Seq<ChatSummary>, selected: Set<i64>) -> Seq<i64> {
    dialogs.filter(chosen(selected)).map_values(|chat: ChatSummary| chat.id)
}

/// The first chat with a title.
pub open spec fn titled(dialogs: Seq<ChatSummary>, title: Seq<char>) -> Option<i64>
    decreases dialogs.len(),
{
    if dialogs.len() == 0 {
        None
    } else if dialogs.first().title@ == title {
        Some(dialogs.first().id)
    } else {
        titled(dialogs.drop_first(), title)
    }
}

/// What is said of a forwarding that is over.
pub open spec fn result_words(succeeded: int, total: int, error: Option<Seq<char>>) -> Seq<char> {
    digits(succeeded) + " of "@ + digits(total) + " forwarded"@ + (match error {
        Some(error) => " — "@ + error,
        None => Seq::empty(),
    })
}

fn result_text(succeeded: usize, total: usize, error: Option<&str>) -> (text: String)
    ensures
        text@ == result_words(
            succeeded as int,
            total as int,
            match error {
                Some(error) => Some(error@),
                None => None,
            },
        ),
{
    let mut text = String::new();
    push_number(&mut text, succeeded as u64);
    text.push_str(" of ");
    push_number(&mut text, total as u64);
    text.push_str(" forwarded");
    if let Some(error) = error {
        text.push_str(" — ");
        text.push_str(error);
    }
    assert(text@ =~= result_words(
        succeeded as int,
        total as int,
        match error {
            Some(error) => Some(error@),
            None => None,
        },
    ));
    text
}

/// The dialog.
pub struct ForwardDialog {
    pub open: bool,
    pub search_text: String,
    pub search_sensitive: bool,
    pub status: String,
    pub status_error: bool,
    pub submit_label: SubmitLabel,
    pub submit_sensitive: bool,
    pub source_chat: i64,
    pub ids: Vec<i32>,
    pub generation: u64,
    pub dialogs: Vec<ChatSummary>,
    pub selected: HashSet<i64>,
    pub busy: bool,
}

impl ForwardDialog {
    /// The set of the chosen chats is finite, as every set in a program is.
    pub open spec fn well_formed(self) -> bool {
        self.selected@.finite()
    }

    pub fn new() -> (dialog: ForwardDialog)
        ensures
            dialog.well_formed(),
            !dialog.open,
            dialog.search_text@.len() == 0,
            dialog.search_sensitive,
            dialog.status@.len() == 0,
            !dialog.status_error,
            dialog.submit_label is Forward,
            !dialog.submit_sensitive,
            dialog.source_chat == 0,
            dialog.ids@.len() == 0,
            dialog.generation == 0,
            dialog.dialogs@.len() == 0,
            dialog.selected@ == Set::<i64>::empty(),
            !dialog.busy,
    {
        ForwardDialog {
            open: false,
            search_text: String::new(),
            search_sensitive: true,
            status: String::new(),
            status_error: false,
            submit_label: SubmitLabel::Forward,
            submit_sensitive: false,
            source_chat: 0,
            ids: Vec::new(),
            generation: 0,
            dialogs: Vec::new(),
            selected: HashSet::new(),
            busy: false,
        }
    }

    /// Opens the dialog for some messages.
    pub fn present(
        &mut self,
        source_chat: i64,
        ids: Vec<i32>,
        dialogs: Vec<ChatSummary>,
        generation: u64,
    )
        ensures
            final(self).well_formed(),
            final(self).search_text@.len() == 0,
            final(self).status@.len() == 0,
            final(self).selected@ == Set::<i64>::empty(),
            *final(self) == (ForwardDialog {
                open: true,
                search_text: final(self).search_text,
                search_sensitive: old(self).search_sensitive,
                status: final(self).status,
                status_error: false,
                submit_label: SubmitLabel::Forward,
                submit_sensitive: false,
                source_chat,
                ids,
                generation,
                dialogs,
                selected: final(self).selected,
                busy: false,
            }),
    {
        self.source_chat = source_chat;
        self.ids = ids;
        self.generation = generation;
        self.dialogs = dialogs;
        self.selected = HashSet::new();
        self.busy = false;
        self.search_text = String::new();
        self.status = String::new();
        self.status_error = false;
        self.submit_label = SubmitLabel::Forward;
        self.submit_sensitive = false;
        self.open = true;
    }

    pub fn close(&mut self)
        ensures
            *final(self) == (ForwardDialog { open: false, busy: false, ..*old(self) }),
    {
        self.open = false;
        self.busy = false;
    }

    pub fn is_open(&self) -> (open: bool)
        ensures
            open == self.open,
    {
        self.open
    }

    pub fn generation(&self) -> (generation: u64)
        ensures
            generation == self.generation,
    {
        self.generation
    }

    pub fn source_ids(&self) -> (ids: &Vec<i32>)
        ensures
            *ids == self.ids,
    {
        &self.ids
    }

    fn any_selected(&self) -> (answer: bool)
        ensures
            answer == (self.selected@.len() > 0),
    {
        broadcast use vstd::std_specs::hash::group_hash_axioms;

        self.selected.len() > 0
    }

    /// The chats that are to be seen, each with whether it is chosen. Where there is
    /// none the list says so.
    pub fn visible(&self) -> (rows: Vec<(ChatSummary, bool)>)
        ensures
            rows@ == self.dialogs@.filter(found_by(self.search_text@)).map_values(
                |chat: ChatSummary| (chat, self.selected@.contains(chat.id)),
            ),
    {
        broadcast use vstd::std_specs::hash::group_hash_axioms;

        let query = trim(&self.search_text);
        let lower = lowercase(&query);
        let ghost keep = found_by(self.search_text@);
        let ghost row = |chat: ChatSummary| (chat, self.selected@.contains(chat.id));
        let mut rows: Vec<(ChatSummary, bool)> = Vec::new();
        let mut i: usize = 0;
        proof {
            reveal(Seq::filter);
            assert(self.dialogs@.take(0) =~= Seq::<ChatSummary>::empty());
            assert(Seq::<ChatSummary>::empty().map_values(row) =~= Seq::<
                (ChatSummary, bool),
            >::empty());
        }
        while i < self.dialogs.len()
            invariant
                i <= self.dialogs@.len(),
                keep == found_by(self.search_text@),
                row == (|chat: ChatSummary| (chat, self.selected@.contains(chat.id))),
                lower@ == lowercased(trimmed(self.search_text@)),
                rows@ == self.dialogs@.take(i as int).filter(keep).map_values(row),
            decreases self.dialogs@.len() - i,
        {
            broadcast use vstd::std_specs::hash::group_hash_axioms;

            let chat = &self.dialogs[i];
            let ghost now = self.dialogs@.take(i as int).filter(keep);
            proof {
                reveal(Seq::filter);
                assert(self.dialogs@.take(i + 1).drop_last() =~= self.dialogs@.take(i as int));
                assert(self.dialogs@.take(i + 1).last() == *chat);
                assert(now.push(*chat).map_values(row) =~= now.map_values(row).push(row(*chat)));
            }
            let title = lowercase(&chat.title);
            let username = lowercase(&chat.username);
            let found = lower.as_str().is_empty() || contains(&title, &lower) || contains(
                &username,
                &lower,
            );
            assert(found == keep(*chat));
            if found {
                let active = self.selected.contains(&chat.id);
                rows.push((chat.clone(), active));
            }
            i += 1;
        }
        assert(self.dialogs@.take(i as int) =~= self.dialogs@);
        rows
    }

    /// The text in the search field changed.
    pub fn search_changed(&mut self, text: &str)
        ensures
            final(self).search_text@ == text@,
            *final(self) == (ForwardDialog {
                search_text: final(self).search_text,
                submit_sensitive: old(self).selected@.len() > 0,
                ..*old(self)
            }),
    {
        self.search_text = text.to_owned();
        self.submit_sensitive = self.any_selected();
    }

    /// A chat was chosen, or no longer is.
    pub fn toggled(&mut self, chat_id: i64, active: bool)
        requires
            old(self).well_formed(),
        ensures
            final(self).well_formed(),
            final(self).selected@ == (if active {
                old(self).selected@.insert(chat_id)
            } else {
                old(self).selected@.remove(chat_id)
            }),
            *final(self) == (ForwardDialog {
                selected: final(self).selected,
                submit_sensitive: final(self).selected@.len() > 0,
                ..*old(self)
            }),
    {
        broadcast use vstd::std_specs::hash::group_hash_axioms;

        if active {
            self.selected.insert(chat_id);
        } else {
            self.selected.remove(&chat_id);
        }
        self.submit_sensitive = self.any_selected();
    }

    fn targets(&self) -> (ids: Vec<i64>)
        ensures
            ids@ == chosen_ids(self.dialogs@, self.selected@),
    {
        broadcast use vstd::std_specs::hash::group_hash_axioms;

        let ghost keep = chosen(self.selected@);
        let ghost id_of = |chat: ChatSummary| chat.id;
        let mut ids: Vec<i64> = Vec::new();
        let mut i: usize = 0;
        proof {
            reveal(Seq::filter);
            assert(self.dialogs@.take(0) =~= Seq::<ChatSummary>::empty());
            assert(Seq::<ChatSummary>::empty().map_values(id_of) =~= Seq::<i64>::empty());
        }
        while i < self.dialogs.len()
            invariant
                i <= self.dialogs@.len(),
                keep == chosen(self.selected@),
                id_of == (|chat: ChatSummary| chat.id),
                ids@ == self.dialogs@.take(i as int).filter(keep).map_values(id_of),
            decreases self.dialogs@.len() - i,
        {
            broadcast use vstd::std_specs::hash::group_hash_axioms;

            let ghost now = self.dialogs@.take(i as int).filter(keep);
            proof {
                reveal(Seq::filter);
                assert(self.dialogs@.take(i + 1).drop_last() =~= self.dialogs@.take(i as int));
                assert(self.dialogs@.take(i + 1).last() == self.dialogs@[i as int]);
                assert(now.push(self.dialogs@[i as int]).map_values(id_of) =~= now.map_values(
                    id_of,
                ).push(self.dialogs@[i as int].id));
            }
            if self.selected.contains(&self.dialogs[i].id) {
                ids.push(self.dialogs[i].id);
            }
            i += 1;
        }
        assert(self.dialogs@.take(i as int) =~= self.dialogs@);
        ids
    }

    /// The button that forwards was pressed. Returns what is asked for: the chosen
    /// chats in the order in which they are listed.
    pub fn submit(&self) -> (request: Option<ForwardRequest>)
        ensures
            request is Some <==> !self.busy && chosen_ids(
                self.dialogs@,
                self.selected@,
            ).len() > 0,
            match request {
                Some(request) => {
                    &&& request.source_chat == self.source_chat
                    &&& request.ids@ == self.ids@
                    &&& request.targets@ == chosen_ids(self.dialogs@, self.selected@)
                    &&& request.generation == self.generation
                },
                None => true,
            },
    {
        if self.busy {
            return None;
        }
        let targets = self.targets();
        if targets.len() == 0 {
            return None;
        }
        Some(
            ForwardRequest {
                source_chat: self.source_chat,
                ids: copy_ids(&self.ids),
                targets,
                generation: self.generation,
            },
        )
    }

    /// The messages are being forwarded, or no longer are.
    pub fn set_busy(&mut self, generation: u64, busy: bool)
        ensures
            old(self).generation != generation ==> *final(self) == *old(self),
            old(self).generation == generation ==> {
                &&& final(self).status@ == (if busy { Seq::empty() } else { old(self).status@ })
                &&& *final(self) == (ForwardDialog {
                    busy,
                    search_sensitive: !busy,
                    submit_sensitive: !busy && old(self).selected@.len() > 0,
                    submit_label: if busy {
                        SubmitLabel::Forwarding
                    } else {
                        old(self).submit_label
                    },
                    status: final(self).status,
                    ..*old(self)
                })
            },
    {
        if self.generation != generation {
            return;
        }
        self.busy = busy;
        self.search_sensitive = !busy;
        let selected = self.any_selected();
        self.submit_sensitive = !busy && selected;
        if busy {
            self.submit_label = SubmitLabel::Forwarding;
            self.status = String::new();
        }
    }

    /// The messages were forwarded. Only the chats to which that failed stay chosen.
    pub fn show_result(
        &mut self,
        generation: u64,
        succeeded: usize,
        total: usize,
        failed_targets: &[i64],
        error: Option<&str>,
    )
        requires
            old(self).well_formed(),
        ensures
            final(self).well_formed(),
            old(self).generation != generation || !old(self).open ==> *final(self) == *old(self),
            old(self).generation == generation && old(self).open ==> {
                let rest = old(self).selected@.intersect(failed_targets@.to_set());
                &&& final(self).selected@ == rest
                &&& final(self).status@ == result_words(
                    succeeded as int,
                    total as int,
                    match error {
                        Some(error) => Some(error@),
                        None => None,
                    },
                )
                &&& *final(self) == (ForwardDialog {
                    busy: false,
                    search_sensitive: true,
                    selected: final(self).selected,
                    status: final(self).status,
                    status_error: error is Some,
                    submit_label: if rest.len() > 0 {
                        SubmitLabel::Retry
                    } else {
                        SubmitLabel::Forward
                    },
                    submit_sensitive: rest.len() > 0,
                    ..*old(self)
                })
            },
    {
        if self.generation != generation || !self.open {
            return;
        }
        self.busy = false;
        self.search_sensitive = true;
        self.keep_selected(failed_targets);
        let retryable = self.any_selected();
        self.status = result_text(succeeded, total, error);
        self.status_error = error.is_some();
        self.submit_label = if retryable { SubmitLabel::Retry } else { SubmitLabel::Forward };
        self.submit_sensitive = retryable;
    }

    fn keep_selected(&mut self, ids: &[i64])
        requires
            old(self).well_formed(),
        ensures
            final(self).well_formed(),
            final(self).selected@ == old(self).selected@.intersect(ids@.to_set()),
            *final(self) == (ForwardDialog { selected: final(self).selected, ..*old(self) }),
    {
        broadcast use vstd::std_specs::hash::group_hash_axioms;

        let mut rest: HashSet<i64> = HashSet::new();
        let mut i: usize = 0;
        assert(rest@ =~= self.selected@.intersect(ids@.take(0).to_set()));
        while i < ids.len()
            invariant
                i <= ids@.len(),
                *self == *old(self),
                rest@ == self.selected@.intersect(ids@.take(i as int).to_set()),
                rest@.finite(),
            decreases ids@.len() - i,
        {
            broadcast use vstd::std_specs::hash::group_hash_axioms;

            let ghost before = rest@;
            if self.selected.contains(&ids[i]) {
                rest.insert(ids[i]);
            }
            proof {
                let now = ids@.take(i as int);
                let next = ids@.take(i + 1);
                assert(next =~= now.push(ids@[i as int]));
                assert forall|id: i64| #[trigger] next.contains(id) <==> now.contains(id) || id
                    == ids@[i as int] by {
                    if now.contains(id) {
                        assert(next[now.index_of(id)] == id);
                    }
                    if next.contains(id) && id != ids@[i as int] {
                        assert(now[next.index_of(id)] == id);
                    }
                    assert(next[i as int] == ids@[i as int]);
                }
                assert(rest@ =~= self.selected@.intersect(next.to_set()));
            }
            i += 1;
        }
        assert(ids@.take(i as int) =~= ids@);
        self.selected = rest;
    }

    /// Chooses the first chat of a title. Returns whether there is one.
    pub fn probe_select(&mut self, title: &str) -> (found: bool)
        requires
            old(self).well_formed(),
        ensures
            final(self).well_formed(),
            found == (titled(old(self).dialogs@, title@) is Some),
            !found ==> *final(self) == *old(self),
            found ==> {
                &&& final(self).selected@ == old(self).selected@.insert(
                    titled(old(self).dialogs@, title@)->0,
                )
                &&& final(self).submit_sensitive
            },
            *final(self) == (ForwardDialog {
                selected: final(self).selected,
                submit_sensitive: final(self).submit_sensitive,
                ..*old(self)
            }),
    {
        let mut i: usize = 0;
        assert(self.dialogs@.skip(0) =~= self.dialogs@);
        while i < self.dialogs.len()
            invariant
                i <= self.dialogs@.len(),
                *self == *old(self),
                self.well_formed(),
                titled(self.dialogs@, title@) == titled(self.dialogs@.skip(i as int), title@),
            decreases self.dialogs@.len() - i,
        {
            assert(self.dialogs@.skip(i as int).first() == self.dialogs@[i as int]);
            if same_text(self.dialogs[i].title.as_str(), title) {
                let id = self.dialogs[i].id;
                self.toggled(id, true);
                assert(self.selected@.contains(id));
                proof {
                    vstd::set_lib::lemma_len_intersect(self.selected@, self.selected@);
                    if self.selected@.len() == 0 {
                        assert(self.selected@ =~= Set::empty());
                    }
                }
                return true;
            }
            assert(self.dialogs@.skip(i as int).drop_first() =~= self.dialogs@.skip(i + 1));
            i += 1;
        }
        false
    }

    pub fn probe_status(&self) -> (status: String)
        ensures
            status == self.status,
    {
        self.status.clone()
    }
}

fn copy_ids(ids: &Vec<i32>) -> (copy: Vec<i32>)
    ensures
        copy@ == ids@,
{
    let mut copy: Vec<i32> = Vec::new();
    let mut i: usize = 0;
    while i < ids.len()
        invariant
            i <= ids@.len(),
            copy@ == ids@.take(i as int),
        decreases ids@.len() - i,
    {
        copy.push(ids[i]);
        i += 1;
        assert(copy@ =~= ids@.take(i as int));
    }
    assert(ids@.take(i as int) =~= ids@);
    copy
}

/// What is tried again went wrong before: after a forwarding each chat that is still
/// chosen was chosen before, and forwarding to it failed.
pub proof fn law_only_failures_are_retried(selected: Set<i64>, failed: Seq<i64>, id: i64)
    requires
        selected.intersect(failed.to_set()).contains(id),
    ensures
        selected.contains(id),
        failed.contains(id),
{
}

} // verus!
