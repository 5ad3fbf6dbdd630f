//! The dialog in which a group is made.

use std::collections::HashSet;

use vstd::prelude::*;

use crate::contacts::{find_named, named, ListState};
use crate::text::{contains, contains_text, lowercase, lowercased, trim, trimmed};
use crate::tg::Contact;

verus! {

/// What can be asked for from the dialog.
#[derive(Debug, PartialEq, Eq)]
pub enum NewGroupAction {
    Close,
    RetryContacts,
    Create { title: String, user_ids: Vec<i64> },
}

/// What the button that makes the group says.
#[derive(Debug, Clone, Copy, PartialEq, Eq, Structural)]
pub enum CreateLabel {
    Create,
    Creating,
    Retry,
}

impl CreateLabel {
    pub fn text(self) -> (text: &'static str)
        ensures
            text@ == (match self {
                CreateLabel::Create => "Create"@,
                CreateLabel::Creating => "Creating…"@,
                CreateLabel::Retry => "Retry"@,
            }),
    {
        match self {
            CreateLabel::Create => "Create",
            CreateLabel::Creating => "Creating…",
            CreateLabel::Retry => "Retry",
        }
    }
}

/// Which contacts a query finds: those with it in their name or their username.
pub open spec fn found_by(query: Seq<char>) -> spec_fn(Contact) -> bool {
    |contact: Contact|
        lowercased(trimmed(query)).len() == 0 || contains_text(
            lowercased(contact.name@),
            lowercased(trimmed(query)),
        ) || contains_text(lowercased(contact.username@), lowercased(trimmed(query)))
}

/// Whether a contact is chosen.
pub open spec fn chosen(selected: Set<i64>) -> spec_fn(Contact) -> bool {
    |contact: Contact| selected.contains(contact.user_id)
}

/// The ids of the chosen contacts, in the order of the contacts.
pub open spec fn chosen_ids(contacts: Seq<Contact>, selected: Set<i64>) -> Seq<i64> {
    contacts.filter(chosen(selected)).map_values(|contact: Contact| contact.user_id)
}

/// The dialog.
pub struct NewGroupDialog {
    pub open: bool,
    pub title: String,
    pub title_sensitive: bool,
    pub search_text: String,
    pub search_sensitive: bool,
    /// Whether the contacts are listed.
    pub listed: bool,
    pub state: ListState,
    pub create_label: CreateLabel,
    pub create_sensitive: bool,
    pub contacts: Vec<Contact>,
    pub selected: HashSet<i64>,
    pub generation: u64,
    pub busy: bool,
}

impl NewGroupDialog {
    /// Whether there is a title, and someone is chosen.
    pub open spec fn complete(self) -> bool {
        trimmed(self.title@).len() > 0 && self.selected@.len() > 0
    }

    /// The set of the chosen contacts is finite, as every set in a program is.
    pub open spec fn well_formed(self) -> bool {
        self.selected@.finite()
    }

    /// Whether an answer belongs to what is shown.
    pub open spec fn awaits(self, generation: u64) -> bool {
        self.open && self.generation == generation
    }

    pub fn new() -> (dialog: NewGroupDialog)
        ensures
            dialog.well_formed(),
            !dialog.open,
            dialog.title@.len() == 0,
            dialog.title_sensitive,
            dialog.search_text@.len() == 0,
            dialog.search_sensitive,
            !dialog.listed,
            dialog.state.shows(Seq::empty(), true, false, false, false),
            dialog.create_label is Create,
            !dialog.create_sensitive,
            dialog.contacts@.len() == 0,
            dialog.selected@ == Set::<i64>::empty(),
            dialog.generation == 0,
            !dialog.busy,
    {
        NewGroupDialog {
            open: false,
            title: String::new(),
            title_sensitive: true,
            search_text: String::new(),
            search_sensitive: true,
            listed: false,
            state: ListState::new(),
            create_label: CreateLabel::Create,
            create_sensitive: false,
            contacts: Vec::new(),
            selected: HashSet::new(),
            generation: 0,
            busy: false,
        }
    }

    /// Opens the dialog. Returns the number that the answer must name.
    pub fn begin(&mut self) -> (generation: u64)
        ensures
            final(self).well_formed(),
            generation == old(self).generation.wrapping_add(1),
            final(self).generation == generation,
            final(self).open,
            final(self).title@.len() == 0,
            final(self).title_sensitive,
            final(self).search_text@.len() == 0,
            !final(self).search_sensitive,
            !final(self).listed,
            final(self).state.shows("Loading contacts…"@, true, false, true, false),
            final(self).create_label is Create,
            !final(self).create_sensitive,
            final(self).contacts@.len() == 0,
            final(self).selected@ == Set::<i64>::empty(),
            !final(self).busy,
    {
        self.generation = self.generation.wrapping_add(1);
        self.contacts = Vec::new();
        self.selected = HashSet::new();
        self.title = String::new();
        self.search_text = String::new();
        self.search_sensitive = false;
        self.title_sensitive = true;
        self.create_sensitive = false;
        self.create_label = CreateLabel::Create;
        self.busy = false;
        self.listed = false;
        self.state.loading("Loading contacts…");
        self.open = true;
        self.generation
    }

    /// The contacts are loaded once more. The title and the choice stay.
    pub fn begin_retry(&mut self)
        ensures
            final(self).state.shows("Loading contacts…"@, true, false, true, false),
            *final(self) == (NewGroupDialog {
                state: final(self).state,
                search_sensitive: false,
                ..*old(self)
            }),
    {
        self.state.loading("Loading contacts…");
        self.search_sensitive = false;
    }

    fn is_complete(&self) -> (answer: bool)
        ensures
            answer == self.complete(),
    {
        broadcast use vstd::std_specs::hash::group_hash_axioms;

        let title = trim(&self.title);
        title.as_str().unicode_len() > 0 && self.selected.len() > 0
    }

    /// Lists the contacts anew.
    fn rebuild_rows(&mut self)
        ensures
            *final(self) == (NewGroupDialog {
                listed: true,
                create_sensitive: old(self).complete(),
                ..*old(self)
            }),
    {
        self.listed = true;
        self.create_sensitive = self.is_complete();
    }

    /// The contacts that are to be seen, each with whether it is chosen.
    pub fn visible(&self) -> (rows: Vec<(Contact, bool)>)
        ensures
            rows@ == self.contacts@.filter(found_by(self.search_text@)).map_values(
                |contact: Contact| (contact, self.selected@.contains(contact.user_id)),
            ),
    {
        broadcast use vstd::std_specs::hash::group_hash_axioms;

        let query = trim(&self.search_text);
        let lower = lowercase(&query);
        let ghost keep = found_by(self.search_text@);
        let ghost row = |contact: Contact| (contact, self.selected@.contains(contact.user_id));
        let mut rows: Vec<(Contact, bool)> = Vec::new();
        let mut i: usize = 0;
        proof {
            reveal(Seq::filter);
            assert(self.contacts@.take(0) =~= Seq::<Contact>::empty());
            assert(Seq::<Contact>::empty().map_values(row) =~= Seq::<(Contact, bool)>::empty());
        }
        while i < self.contacts.len()
            invariant
                i <= self.contacts@.len(),
                keep == found_by(self.search_text@),
                row == (|contact: Contact| (contact, self.selected@.contains(contact.user_id))),
                lower@ == lowercased(trimmed(self.search_text@)),
                rows@ == self.contacts@.take(i as int).filter(keep).map_values(row),
            decreases self.contacts@.len() - i,
        {
            broadcast use vstd::std_specs::hash::group_hash_axioms;

            let contact = &self.contacts[i];
            let ghost now = self.contacts@.take(i as int).filter(keep);
            proof {
                reveal(Seq::filter);
                assert(self.contacts@.take(i + 1).drop_last() =~= self.contacts@.take(i as int));
                assert(self.contacts@.take(i + 1).last() == *contact);
                assert(now.push(*contact).map_values(row) =~= now.map_values(row).push(
                    row(*contact),
                ));
            }
            let name = lowercase(&contact.name);
            let username = lowercase(&contact.username);
            let found = lower.as_str().is_empty() || contains(&name, &lower) || contains(
                &username,
                &lower,
            );
            assert(found == keep(*contact));
            if found {
                let active = self.selected.contains(&contact.user_id);
                rows.push((contact.clone(), active));
            }
            i += 1;
        }
        assert(self.contacts@.take(i as int) =~= self.contacts@);
        rows
    }

    /// The text in the search field changed.
    pub fn search_changed(&mut self, text: &str)
        ensures
            final(self).search_text@ == text@,
            *final(self) == (NewGroupDialog {
                search_text: final(self).search_text,
                listed: true,
                create_sensitive: old(self).complete(),
                ..*old(self)
            }),
    {
        self.search_text = text.to_owned();
        self.rebuild_rows();
    }

    /// The title changed.
    pub fn title_changed(&mut self, text: &str)
        ensures
            final(self).title@ == text@,
            final(self).create_sensitive == final(self).complete(),
            *final(self) == (NewGroupDialog {
                title: final(self).title,
                create_sensitive: final(self).create_sensitive,
                ..*old(self)
            }),
    {
        self.title = text.to_owned();
        self.create_sensitive = self.is_complete();
    }

    /// A contact was chosen, or no longer is.
    pub fn toggled(&mut self, user_id: i64, active: bool)
        requires
            old(self).well_formed(),
        ensures
            final(self).well_formed(),
            final(self).selected@ == (if active {
                old(self).selected@.insert(user_id)
            } else {
                old(self).selected@.remove(user_id)
            }),
            final(self).create_sensitive == final(self).complete(),
            *final(self) == (NewGroupDialog {
                selected: final(self).selected,
                create_sensitive: final(self).create_sensitive,
                ..*old(self)
            }),
    {
        broadcast use vstd::std_specs::hash::group_hash_axioms;

        if active {
            self.selected.insert(user_id);
        } else {
            self.selected.remove(&user_id);
        }
        self.create_sensitive = self.is_complete();
    }

    /// The contacts have come. Returns whether the dialog still waits for them.
    pub fn finish_contacts(&mut self, generation: u64, contacts: Vec<Contact>) -> (taken: bool)
        ensures
            taken == old(self).awaits(generation),
            !taken ==> *final(self) == *old(self),
            taken ==> {
                &&& final(self).contacts == contacts
                &&& final(self).search_sensitive
                &&& final(self).listed
                &&& final(self).create_sensitive == old(self).complete()
                &&& final(self).state.shows(
                    if contacts@.len() == 0 { "No contacts"@ } else { Seq::empty() },
                    contacts@.len() == 0,
                    false,
                    false,
                    false,
                )
            },
            *final(self) == (NewGroupDialog {
                contacts: final(self).contacts,
                search_sensitive: final(self).search_sensitive,
                listed: final(self).listed,
                create_sensitive: final(self).create_sensitive,
                state: final(self).state,
                ..*old(self)
            }),
    {
        if !self.open || self.generation != generation {
            return false;
        }
        let empty = contacts.len() == 0;
        self.contacts = contacts;
        self.state.spinner = false;
        self.state.retry = false;
        self.search_sensitive = true;
        proof {
            reveal_strlit("");
            assert(""@ =~= Seq::<char>::empty());
        }
        self.state.note(if empty { "No contacts" } else { "" }, empty);
        self.rebuild_rows();
        true
    }

    /// The contacts could not be loaded.
    pub fn fail_contacts(&mut self, generation: u64, error: &str) -> (taken: bool)
        ensures
            taken == old(self).awaits(generation),
            !taken ==> *final(self) == *old(self),
            taken ==> {
                &&& final(self).state.shows(error@, true, true, false, true)
                &&& final(self).search_sensitive
                &&& !final(self).listed
            },
            *final(self) == (NewGroupDialog {
                search_sensitive: final(self).search_sensitive,
                listed: final(self).listed,
                state: final(self).state,
                ..*old(self)
            }),
    {
        if !self.open || self.generation != generation {
            return false;
        }
        self.listed = false;
        self.state.failed(error);
        self.search_sensitive = true;
        true
    }

    /// The ids of the chosen contacts, in the order of the contacts.
    fn chosen_members(&self) -> (ids: Vec<i64>)
        ensures
            ids@ == chosen_ids(self.contacts@, self.selected@),
    {
        broadcast use vstd::std_specs::hash::group_hash_axioms;

        let ghost keep = chosen(self.selected@);
        let ghost id_of = |contact: Contact| contact.user_id;
        let mut ids: Vec<i64> = Vec::new();
        let mut i: usize = 0;
        proof {
            reveal(Seq::filter);
            assert(self.contacts@.take(0) =~= Seq::<Contact>::empty());
            assert(Seq::<Contact>::empty().map_values(id_of) =~= Seq::<i64>::empty());
        }
        while i < self.contacts.len()
            invariant
                i <= self.contacts@.len(),
                keep == chosen(self.selected@),
                id_of == (|contact: Contact| contact.user_id),
                ids@ == self.contacts@.take(i as int).filter(keep).map_values(id_of),
            decreases self.contacts@.len() - i,
        {
            broadcast use vstd::std_specs::hash::group_hash_axioms;

            let ghost now = self.contacts@.take(i as int).filter(keep);
            proof {
                reveal(Seq::filter);
                assert(self.contacts@.take(i + 1).drop_last() =~= self.contacts@.take(i as int));
                assert(self.contacts@.take(i + 1).last() == self.contacts@[i as int]);
                assert(now.push(self.contacts@[i as int]).map_values(id_of) =~= now.map_values(
                    id_of,
                ).push(self.contacts@[i as int].user_id));
            }
            if self.selected.contains(&self.contacts[i].user_id) {
                ids.push(self.contacts[i].user_id);
            }
            i += 1;
        }
        assert(self.contacts@.take(i as int) =~= self.contacts@);
        ids
    }

    /// The button that makes the group was pressed. Returns what is asked for: the
    /// title as it was typed, and the chosen contacts in the order of the contacts.
    pub fn submit(&self) -> (action: Option<NewGroupAction>)
        ensures
            action is Some <==> !self.busy && trimmed(self.title@).len() > 0 && chosen_ids(
                self.contacts@,
                self.selected@,
            ).len() > 0,
            match action {
                Some(NewGroupAction::Create { title, user_ids }) => title == self.title
                    && user_ids@ == chosen_ids(self.contacts@, self.selected@),
                Some(_) => false,
                None => true,
            },
    {
        if self.busy {
            return None;
        }
        let ids = self.chosen_members();
        let title = trim(&self.title);
        if title.as_str().unicode_len() == 0 || ids.len() == 0 {
            return None;
        }
        Some(NewGroupAction::Create { title: self.title.clone(), user_ids: ids })
    }

    /// The group is being made, or no longer is.
    pub fn set_busy(&mut self, busy: bool)
        ensures
            final(self).state == (ListState {
                text: final(self).state.text,
                visible: !busy && old(self).state.visible,
                ..old(self).state
            }),
            final(self).state.text@ == (if busy { Seq::empty() } else { old(self).state.text@ }),
            *final(self) == (NewGroupDialog {
                busy,
                title_sensitive: !busy,
                search_sensitive: !busy,
                create_label: if busy { CreateLabel::Creating } else { CreateLabel::Create },
                create_sensitive: !busy && old(self).complete(),
                state: final(self).state,
                ..*old(self)
            }),
    {
        self.busy = busy;
        self.title_sensitive = !busy;
        self.search_sensitive = !busy;
        self.create_label = if busy { CreateLabel::Creating } else { CreateLabel::Create };
        let complete = self.is_complete();
        self.create_sensitive = !busy && complete;
        if busy {
            self.state.text = String::new();
            self.state.visible = false;
        }
    }

    /// The group could not be made.
    pub fn show_create_error(&mut self, error: &str)
        ensures
            final(self).state.shows(
                error@,
                true,
                true,
                old(self).state.spinner,
                old(self).state.retry,
            ),
            *final(self) == (NewGroupDialog {
                busy: false,
                title_sensitive: true,
                search_sensitive: true,
                create_label: CreateLabel::Retry,
                create_sensitive: old(self).complete(),
                state: final(self).state,
                ..*old(self)
            }),
    {
        self.set_busy(false);
        self.create_label = CreateLabel::Retry;
        self.state.text = error.to_owned();
        self.state.error = true;
        self.state.visible = true;
    }

    /// Closes the dialog. No answer that is still to come will change anything.
    pub fn close(&mut self)
        ensures
            final(self).state == (ListState { spinner: false, ..old(self).state }),
            *final(self) == (NewGroupDialog {
                generation: old(self).generation.wrapping_add(1),
                open: false,
                busy: false,
                state: final(self).state,
                ..*old(self)
            }),
    {
        self.generation = self.generation.wrapping_add(1);
        self.open = false;
        self.busy = false;
        self.state.spinner = false;
    }

    pub fn is_open(&self) -> (open: bool)
        ensures
            open == self.open,
    {
        self.open
    }

    pub fn generation(&self) -> (generation: u64)
        ensures
            generation == self.generation,
    {
        self.generation
    }

    pub fn retry_visible(&self) -> (visible: bool)
        ensures
            visible == self.state.retry,
    {
        self.state.retry
    }

    pub fn error_text(&self) -> (text: String)
        ensures
            text == self.state.text,
    {
        self.state.text.clone()
    }

    pub fn probe_set_title(&mut self, value: &str)
        ensures
            final(self).title@ == value@,
            final(self).create_sensitive == final(self).complete(),
            *final(self) == (NewGroupDialog {
                title: final(self).title,
                create_sensitive: final(self).create_sensitive,
                ..*old(self)
            }),
    {
        self.title_changed(value);
    }

    /// Chooses the first contact of a name. Returns whether there is one.
    pub fn probe_select(&mut self, name: &str) -> (found: bool)
        requires
            old(self).well_formed(),
        ensures
            final(self).well_formed(),
            found == (named(old(self).contacts@, name@) is Some),
            !found ==> *final(self) == *old(self),
            found ==> {
                &&& final(self).selected@ == old(self).selected@.insert(
                    named(old(self).contacts@, name@)->0,
                )
                &&& final(self).listed
                &&& final(self).create_sensitive == final(self).complete()
            },
            *final(self) == (NewGroupDialog {
                selected: final(self).selected,
                listed: final(self).listed,
                create_sensitive: final(self).create_sensitive,
                ..*old(self)
            }),
    {
        match find_named(&self.contacts, name) {
            Some(id) => {
                self.toggled(id, true);
                self.rebuild_rows();
                true
            },
            None => false,
        }
    }

    pub fn selected_count(&self) -> (count: usize)
        ensures
            count == self.selected@.len(),
    {
        broadcast use vstd::std_specs::hash::group_hash_axioms;

        self.selected.len()
    }

    pub fn contact_count(&self) -> (count: usize)
        ensures
            count == self.contacts@.len(),
    {
        self.contacts.len()
    }

    pub fn title_text(&self) -> (title: String)
        ensures
            title == self.title,
    {
        self.title.clone()
    }
}

} // verus!
