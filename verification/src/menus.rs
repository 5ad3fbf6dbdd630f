//! What the menus of the application can ask for.

use vstd::prelude::*;

use crate::tg::MuteMode;

verus! {

/// What can be done with a chat.
#[derive(Debug, Clone, Copy, PartialEq, Eq, Structural)]
pub enum ChatAction {
    Open,
    MarkUnread(bool),
    Pin(bool),
    Mute(MuteMode),
    Archive(bool),
    ClearHistory,
    Delete,
    Search,
    JumpToDate,
    Info,
    Call,
}

/// What the main menu offers.
#[derive(Debug, Clone, Copy, PartialEq, Eq, Structural)]
pub enum MainMenuAction {
    Saved,
    Contacts,
    NewGroup,
    Archived,
    Settings,
    Shortcuts,
    About,
    LogOut,
}

/// An entry of a chat's menu.
#[derive(Debug, Clone, Copy)]
pub struct MenuItem {
    pub label: &'static str,
    pub action: ChatAction,
    /// Whether the entry destroys something.
    pub danger: bool,
}

impl MenuItem {
    /// What the entry says and does.
    pub open spec fn model(self) -> (Seq<char>, ChatAction, bool) {
        (self.label@, self.action, self.danger)
    }

    pub fn new(label: &'static str, action: ChatAction, danger: bool) -> (item: MenuItem)
        ensures
            item.model() == (label@, action, danger),
    {
        MenuItem { label, action, danger }
    }
}

} // verus!
