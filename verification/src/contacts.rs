//! The dialog with the address book.

use vstd::prelude::*;

use crate::clock::Stamp;
use crate::info_panel::{presence_text, presence_words};
use crate::text::{contains, contains_text, lowercase, lowercased, same_text, trim, trimmed};
use crate::tg::Contact;

verus! {

/// What can be asked for from the dialog.
#[derive(Debug, Clone, Copy, PartialEq, Eq, Structural)]
pub enum ContactsAction {
    Close,
    Retry,
    Open(i64),
}

/// The line below a list that says how its loading goes.
pub struct ListState {
    pub text: String,
    pub visible: bool,
    pub error: bool,
    pub spinner: bool,
    pub retry: bool,
}

impl ListState {
    /// What the line shows.
    pub open spec fn shows(
        self,
        text: Seq<char>,
        visible: bool,
        error: bool,
        spinner: bool,
        retry: bool,
    ) -> bool {
        &&& self.text@ == text
        &&& self.visible == visible
        &&& self.error == error
        &&& self.spinner == spinner
        &&& self.retry == retry
    }

    pub(crate) fn new() -> (state: ListState)
        ensures
            state.shows(Seq::empty(), true, false, false, false),
    {
        ListState {
            text: String::new(),
            visible: true,
            error: false,
            spinner: false,
            retry: false,
        }
    }

    pub(crate) fn loading(&mut self, text: &str)
        ensures
            final(self).shows(text@, true, false, true, false),
    {
        *self = ListState {
            text: text.to_owned(),
            visible: true,
            error: false,
            spinner: true,
            retry: false,
        };
    }

    pub(crate) fn failed(&mut self, error: &str)
        ensures
            final(self).shows(error@, true, true, false, true),
    {
        *self = ListState {
            text: error.to_owned(),
            visible: true,
            error: true,
            spinner: false,
            retry: true,
        };
    }

    /// Says something about a list that was loaded.
    pub(crate) fn note(&mut self, text: &str, visible: bool)
        ensures
            final(self).shows(text@, visible, false, old(self).spinner, old(self).retry),
    {
        self.text = text.to_owned();
        self.visible = visible;
        self.error = false;
    }
}

/// Which contacts a query finds: those with it in their name, their username or their
/// phone number. Case and the white space around it do not matter, and an empty query
/// finds all.
pub open spec fn found_by(query: Seq<char>) -> spec_fn(Contact) -> bool {
    |contact: Contact|
        lowercased(trimmed(query)).len() == 0 || contains_text(
            lowercased(contact.name@),
            lowercased(trimmed(query)),
        ) || contains_text(lowercased(contact.username@), lowercased(trimmed(query)))
            || contains_text(lowercased(contact.phone@), lowercased(trimmed(query)))
}

fn is_found(contact: &Contact, lower: &str) -> (found: bool)
    ensures
        found == (lower@.len() == 0 || contains_text(lowercased(contact.name@), lower@)
            || contains_text(lowercased(contact.username@), lower@) || contains_text(
            lowercased(contact.phone@),
            lower@,
        )),
{
    if lower.is_empty() {
        return true;
    }
    let name = lowercase(&contact.name);
    let username = lowercase(&contact.username);
    let phone = lowercase(&contact.phone);
    contains(&name, lower) || contains(&username, lower) || contains(&phone, lower)
}

/// The first contact with a name.
pub open spec fn named(contacts: Seq<Contact>, name: Seq<char>) -> Option<i64>
    decreases contacts.len(),
{
    if contacts.len() == 0 {
        None
    } else if contacts.first().name@ == name {
        Some(contacts.first().user_id)
    } else {
        named(contacts.drop_first(), name)
    }
}

pub(crate) fn find_named(contacts: &Vec<Contact>, name: &str) -> (id: Option<i64>)
    ensures
        id == named(contacts@, name@),
{
    let mut i: usize = 0;
    assert(contacts@.skip(0) =~= contacts@);
    while i < contacts.len()
        invariant
            i <= contacts@.len(),
            named(contacts@, name@) == named(contacts@.skip(i as int), name@),
        decreases contacts@.len() - i,
    {
        assert(contacts@.skip(i as int).first() == contacts@[i as int]);
        if same_text(contacts[i].name.as_str(), name) {
            return Some(contacts[i].user_id);
        }
        assert(contacts@.skip(i as int).drop_first() =~= contacts@.skip(i + 1));
        i += 1;
    }
    None
}

/// The dialog.
pub struct ContactsDialog {
    pub open: bool,
    pub search_text: String,
    pub search_sensitive: bool,
    /// Whether the contacts are listed. They are not while they are loaded.
    pub listed: bool,
    pub state: ListState,
    pub contacts: Vec<Contact>,
    pub generation: u64,
    pub show_avatars: bool,
}

impl ContactsDialog {
    pub fn new() -> (dialog: ContactsDialog)
        ensures
            !dialog.open,
            dialog.search_text@.len() == 0,
            dialog.search_sensitive,
            !dialog.listed,
            dialog.state.shows(Seq::empty(), true, false, false, false),
            dialog.contacts@.len() == 0,
            dialog.generation == 0,
            dialog.show_avatars,
    {
        ContactsDialog {
            open: false,
            search_text: String::new(),
            search_sensitive: true,
            listed: false,
            state: ListState::new(),
            contacts: Vec::new(),
            generation: 0,
            show_avatars: true,
        }
    }

    /// Whether an answer belongs to what is shown.
    pub open spec fn awaits(self, generation: u64) -> bool {
        self.open && self.generation == generation
    }

    /// The contacts that are to be seen.
    pub open spec fn matches(self) -> Seq<Contact> {
        self.contacts@.filter(found_by(self.search_text@))
    }

    /// Returns whether the contacts must be loaded anew.
    pub fn set_show_avatars(&mut self, show: bool) -> (reload: bool)
        ensures
            reload == (old(self).show_avatars != show),
            *final(self) == (ContactsDialog { show_avatars: show, ..*old(self) }),
    {
        let reload = self.show_avatars != show;
        self.show_avatars = show;
        reload
    }

    /// Opens the dialog. Returns the number that the answer must name.
    pub fn begin(&mut self) -> (generation: u64)
        ensures
            generation == old(self).generation.wrapping_add(1),
            final(self).generation == generation,
            final(self).open,
            final(self).search_text@.len() == 0,
            !final(self).search_sensitive,
            !final(self).listed,
            final(self).contacts@.len() == 0,
            final(self).state.shows("Loading contacts…"@, true, false, true, false),
            final(self).show_avatars == old(self).show_avatars,
    {
        self.generation = self.generation.wrapping_add(1);
        self.contacts = Vec::new();
        self.listed = false;
        self.state.loading("Loading contacts…");
        self.search_text = String::new();
        self.search_sensitive = false;
        self.open = true;
        self.generation
    }

    /// What the line below the list says of it.
    pub open spec fn noted(self, before: ListState) -> bool {
        self.state.shows(
            if self.contacts@.len() == 0 {
                "No contacts"@
            } else if self.matches().len() == 0 {
                "No results"@
            } else {
                Seq::empty()
            },
            self.matches().len() == 0,
            false,
            before.spinner,
            before.retry,
        )
    }

    /// Lists the contacts anew.
    fn rebuild(&mut self)
        ensures
            final(self).listed,
            final(self).noted(old(self).state),
            *final(self) == (ContactsDialog {
                listed: true,
                state: final(self).state,
                ..*old(self)
            }),
    {
        let shown = self.visible();
        self.listed = true;
        if self.contacts.len() == 0 {
            proof {
                reveal(Seq::filter);
            }
            self.state.note("No contacts", shown.len() == 0);
        } else if shown.len() == 0 {
            self.state.note("No results", true);
        } else {
            self.state.note("", false);
            proof {
                reveal_strlit("");
                assert(""@ =~= Seq::<char>::empty());
            }
        }
    }

    /// The contacts that are to be seen.
    pub fn visible(&self) -> (contacts: Vec<Contact>)
        ensures
            contacts@ == self.matches(),
    {
        let query = trim(&self.search_text);
        let lower = lowercase(&query);
        let ghost keep = found_by(self.search_text@);
        let mut shown: Vec<Contact> = Vec::new();
        let mut i: usize = 0;
        proof {
            reveal(Seq::filter);
            assert(self.contacts@.take(0) =~= Seq::<Contact>::empty());
        }
        while i < self.contacts.len()
            invariant
                i <= self.contacts@.len(),
                keep == found_by(self.search_text@),
                lower@ == lowercased(trimmed(self.search_text@)),
                shown@ == self.contacts@.take(i as int).filter(keep),
            decreases self.contacts@.len() - i,
        {
            proof {
                reveal(Seq::filter);
                assert(self.contacts@.take(i + 1).drop_last() =~= self.contacts@.take(i as int));
                assert(self.contacts@.take(i + 1).last() == self.contacts@[i as int]);
            }
            let found = is_found(&self.contacts[i], &lower);
            assert(found == keep(self.contacts@[i as int]));
            if found {
                shown.push(self.contacts[i].clone());
            }
            i += 1;
        }
        assert(self.contacts@.take(i as int) =~= self.contacts@);
        shown
    }

    /// The text in the search field changed.
    pub fn search_changed(&mut self, text: &str)
        ensures
            final(self).search_text@ == text@,
            final(self).listed,
            final(self).noted(old(self).state),
            *final(self) == (ContactsDialog {
                search_text: final(self).search_text,
                listed: true,
                state: final(self).state,
                ..*old(self)
            }),
    {
        self.search_text = text.to_owned();
        self.rebuild();
    }

    /// The contacts have come. Returns whether the dialog still waits for them.
    pub fn finish(&mut self, generation: u64, contacts: Vec<Contact>) -> (taken: bool)
        ensures
            taken == old(self).awaits(generation),
            !taken ==> *final(self) == *old(self),
            taken ==> {
                &&& final(self).contacts == contacts
                &&& final(self).search_sensitive
                &&& final(self).listed
                &&& final(self).noted(
                    ListState { spinner: false, retry: false, ..old(self).state },
                )
            },
            *final(self) == (ContactsDialog {
                contacts: final(self).contacts,
                search_sensitive: final(self).search_sensitive,
                listed: final(self).listed,
                state: final(self).state,
                ..*old(self)
            }),
    {
        if !self.open || generation != self.generation {
            return false;
        }
        self.contacts = contacts;
        self.state.spinner = false;
        self.state.retry = false;
        self.search_sensitive = true;
        self.rebuild();
        true
    }

    /// The contacts could not be loaded.
    pub fn fail(&mut self, generation: u64, error: &str) -> (taken: bool)
        ensures
            taken == old(self).awaits(generation),
            !taken ==> *final(self) == *old(self),
            taken ==> {
                &&& final(self).state.shows(error@, true, true, false, true)
                &&& final(self).search_sensitive
                &&& !final(self).listed
            },
            *final(self) == (ContactsDialog {
                search_sensitive: final(self).search_sensitive,
                listed: final(self).listed,
                state: final(self).state,
                ..*old(self)
            }),
    {
        if !self.open || generation != self.generation {
            return false;
        }
        self.listed = false;
        self.state.failed(error);
        self.search_sensitive = true;
        true
    }

    /// What was asked for did not work.
    pub fn show_action_error(&mut self, error: &str)
        ensures
            !old(self).open ==> *final(self) == *old(self),
            old(self).open ==> final(self).state.shows(
                error@,
                true,
                true,
                old(self).state.spinner,
                old(self).state.retry,
            ),
            *final(self) == (ContactsDialog { state: final(self).state, ..*old(self) }),
    {
        if self.open {
            self.state.text = error.to_owned();
            self.state.error = true;
            self.state.visible = true;
        }
    }

    /// Closes the dialog. No answer that is still to come will change anything.
    pub fn close(&mut self)
        ensures
            final(self).state == (ListState { spinner: false, ..old(self).state }),
            *final(self) == (ContactsDialog {
                generation: old(self).generation.wrapping_add(1),
                open: false,
                state: final(self).state,
                ..*old(self)
            }),
    {
        self.generation = self.generation.wrapping_add(1);
        self.open = false;
        self.state.spinner = false;
    }

    pub fn is_open(&self) -> (open: bool)
        ensures
            open == self.open,
    {
        self.open
    }

    pub fn generation(&self) -> (generation: u64)
        ensures
            generation == self.generation,
    {
        self.generation
    }

    pub fn count(&self) -> (count: usize)
        ensures
            count == self.contacts@.len(),
    {
        self.contacts.len()
    }

    pub fn retry_visible(&self) -> (visible: bool)
        ensures
            visible == self.state.retry,
    {
        self.state.retry
    }

    pub fn error_text(&self) -> (text: String)
        ensures
            text == self.state.text,
    {
        self.state.text.clone()
    }

    /// Opens the chat with the first contact of a name.
    pub fn probe_open(&self, name: &str) -> (asked: Option<ContactsAction>)
        ensures
            asked == (match named(self.contacts@, name@) {
                Some(id) => Some(ContactsAction::Open(id)),
                None => None,
            }),
    {
        match find_named(&self.contacts, name) {
            Some(id) => Some(ContactsAction::Open(id)),
            None => None,
        }
    }
}

/// What stands below a contact's name.
pub fn contact_status(contact: &Contact, now: Stamp) -> (text: String)
    ensures
        text@ == presence_words(contact.presence, now),
{
    presence_text(contact.presence, now)
}

/// An answer to an earlier request is not taken once the dialog was closed or opened
/// again.
pub proof fn law_closed_dialogs_wait_for_nothing(before: ContactsDialog, after: ContactsDialog)
    requires
        after.generation == before.generation.wrapping_add(1),
    ensures
        !after.awaits(before.generation),
{
}

} // verus!
