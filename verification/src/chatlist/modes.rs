//! What the list of chats shows: a folder, the archive or a search.

use vstd::prelude::*;

use crate::chatlist::list::{archived_in, bars_filled, bars_tabbed, unread_in, Bars, ChatList, Page, SidebarMode};
use crate::tg::Folder;

verus! {

/// How wide the list is at least.
pub const COLLAPSED_WIDTH: i32 = 64;

pub const FULL_WIDTH: i32 = 220;

/// How large a chat's picture is.
pub const COLLAPSED_AVATAR: i32 = 28;

pub const FULL_AVATAR: i32 = 44;

/// A folder's tab.
#[derive(Debug, PartialEq, Eq)]
pub struct FolderTab {
    pub id: i32,
    pub title: String,
    /// What its badge says. Nothing unread has no badge.
    pub unread: i32,
    pub active: bool,
}

/// The folder that holds all chats.
pub open spec fn is_all(folder: Folder) -> bool {
    folder.id == 0 && folder.title@ == "All"@ && folder.chats@.len() == 0
}

impl ChatList {
    /// Shows the archived chats.
    pub fn show_archived(&mut self)
        requires
            old(self).well_formed(),
        ensures
            final(self).well_formed(),
            archive_shown(*old(self), *final(self)),
    {
        let bars = self.bars;
        self.mode = SidebarMode::Archived;
        self.bars = Bars {
            menu_button: false,
            back_button: true,
            archived_title: !bars.collapsed,
            search: !bars.collapsed,
            folder_bar: false,
            page: Page::Dialogs,
            ..bars
        };
    }

    /// Which folder was listed before the archive.
    pub open spec fn prior_folder(self) -> i32 {
        match self.prior_mode {
            SidebarMode::Dialogs(folder) => folder,
            _ => 0,
        }
    }

    /// Goes back from the archive to the folder that was listed before it.
    pub fn show_dialogs_from_archive(&mut self)
        requires
            old(self).well_formed(),
        ensures
            final(self).well_formed(),
            archive_left(*old(self), *final(self)),
    {
        let folder: i32 = match &self.prior_mode {
            SidebarMode::Dialogs(id) => *id,
            _ => 0,
        };
        let bars = self.bars;
        let folder_bar = !bars.collapsed && self.folders.len() > 0;
        self.mode = SidebarMode::Dialogs(folder);
        self.prior_mode = SidebarMode::Dialogs(folder);
        self.bars = Bars {
            menu_button: true,
            back_button: false,
            archived_title: false,
            search: !bars.collapsed,
            folder_bar,
            page: Page::Dialogs,
            ..bars
        };
    }

    /// A folder's tab was clicked.
    pub fn open_tab(&mut self, folder_id: i32)
        ensures
            old(self).well_formed() ==> final(self).well_formed(),
            final(self).mode == SidebarMode::Dialogs(folder_id),
            final(self).prior_mode == SidebarMode::Dialogs(folder_id),
            final(self).bars == (Bars {
                active_folder: folder_id,
                page: Page::Dialogs,
                ..old(self).bars
            }),
            *final(self) == (ChatList {
                mode: final(self).mode,
                prior_mode: final(self).prior_mode,
                bars: final(self).bars,
                ..*old(self)
            }),
    {
        let bars = self.bars;
        self.mode = SidebarMode::Dialogs(folder_id);
        self.prior_mode = SidebarMode::Dialogs(folder_id);
        self.bars = Bars { active_folder: folder_id, page: Page::Dialogs, ..bars };
    }

    /// Lists the chats of a folder.
    pub fn select_folder(&mut self, folder_id: i32)
        ensures
            old(self).well_formed() ==> final(self).well_formed(),
            final(self).mode == SidebarMode::Dialogs(folder_id),
            final(self).prior_mode == SidebarMode::Dialogs(folder_id),
            final(self).bars == bars_tabbed(
                Bars { page: Page::Dialogs, ..old(self).bars },
                SidebarMode::Dialogs(folder_id),
                old(self).folders@.len(),
                folder_id,
            ),
            *final(self) == (ChatList {
                mode: final(self).mode,
                prior_mode: final(self).prior_mode,
                bars: final(self).bars,
                ..*old(self)
            }),
    {
        self.open_tab(folder_id);
        self.rebuild_folder_tabs(folder_id);
    }

    /// Narrows the list to the pictures of the chats, or shows all of it.
    pub fn set_collapsed(&mut self, collapsed: bool)
        ensures
            final(self).bars == (Bars {
                collapsed,
                search: !collapsed,
                archived_title: !collapsed && old(self).mode is Archived,
                folder_bar: !collapsed && old(self).folders@.len() > 0
                    && old(self).mode is Dialogs,
                archived_button: !collapsed && archived_in(old(self).table.chats@) > 0
                    && old(self).mode is Dialogs,
                ..old(self).bars
            }),
            *final(self) == (ChatList { bars: final(self).bars, ..*old(self) }),
    {
        let bars = self.bars;
        let dialogs = matches!(self.mode, SidebarMode::Dialogs(_));
        let archive = matches!(self.mode, SidebarMode::Archived);
        let archived = self.archived_total() > 0;
        let folders = self.folders.len() > 0;
        self.bars = Bars {
            collapsed,
            search: !collapsed,
            archived_title: !collapsed && archive,
            folder_bar: !collapsed && folders && dialogs,
            archived_button: !collapsed && archived && dialogs,
            ..bars
        };
    }

    pub fn is_collapsed(&self) -> (answer: bool)
        ensures
            answer == self.bars.collapsed,
    {
        self.bars.collapsed
    }

    /// How wide the list is at least.
    pub fn width(&self) -> (width: i32)
        ensures
            width == (if self.bars.collapsed { COLLAPSED_WIDTH } else { FULL_WIDTH }),
    {
        if self.bars.collapsed {
            COLLAPSED_WIDTH
        } else {
            FULL_WIDTH
        }
    }

    /// How large a chat's picture is.
    pub fn avatar_size(&self) -> (size: i32)
        ensures
            size == (if self.bars.collapsed { COLLAPSED_AVATAR } else { FULL_AVATAR }),
    {
        if self.bars.collapsed {
            COLLAPSED_AVATAR
        } else {
            FULL_AVATAR
        }
    }

    /// Returns whether the rows have to be made anew.
    pub fn set_show_avatars(&mut self, show: bool) -> (changed: bool)
        ensures
            changed == (old(self).show_avatars != show),
            *final(self) == (ChatList { show_avatars: show, ..*old(self) }),
    {
        let changed = self.show_avatars != show;
        self.show_avatars = show;
        changed
    }

    /// Whether the search field takes the focus: not while the list is narrow.
    pub fn focus_search(&self) -> (focus: bool)
        ensures
            focus == !self.bars.collapsed,
    {
        !self.bars.collapsed
    }

    /// Fills the list anew, be it with results.
    pub fn refresh_search(&mut self)
        ensures
            final(self).bars == bars_filled(
                old(self).bars,
                old(self).mode,
                archived_in(old(self).table.chats@),
            ),
            *final(self) == (ChatList { bars: final(self).bars, ..*old(self) }),
    {
        self.rebuild_visible();
    }

    pub fn mode(&self) -> (mode: SidebarMode)
        ensures
            mode == self.mode,
    {
        self.mode.clone()
    }

    pub fn folder_tabs_visible(&self) -> (visible: bool)
        ensures
            visible == self.bars.folder_bar,
    {
        self.bars.folder_bar
    }

    /// Whether a tab shows a folder.
    pub open spec fn tab_shows(self, tab: FolderTab, folder: Folder) -> bool {
        &&& tab.id == folder.id
        &&& tab.title@ == folder.title@
        &&& tab.unread == unread_in(self.table.chats@, folder)
        &&& tab.active == (folder.id == self.bars.active_folder)
    }

    fn tab(&self, folder: &Folder) -> (tab: FolderTab)
        requires
            unread_in(self.table.chats@, *folder) <= i32::MAX,
        ensures
            self.tab_shows(tab, *folder),
    {
        FolderTab {
            id: folder.id,
            title: folder.title.clone(),
            unread: self.folder_unread(folder),
            active: folder.id == self.bars.active_folder,
        }
    }

    /// Whether the unread messages of each tab can be counted.
    pub open spec fn tabs_countable(self) -> bool {
        &&& forall|i: int|
            0 <= i < self.folders@.len() ==> unread_in(
                self.table.chats@,
                #[trigger] self.folders@[i],
            ) <= i32::MAX
        &&& forall|all: Folder|
            self.folders@.len() > 0 && is_all(all) ==> #[trigger] unread_in(
                self.table.chats@,
                all,
            ) <= i32::MAX
    }

    /// The folders' tabs, behind one for all chats. There are none where there are no
    /// folders.
    pub fn folder_tabs(&self) -> (tabs: Vec<FolderTab>)
        requires
            self.tabs_countable(),
        ensures
            self.folders@.len() == 0 ==> tabs@.len() == 0,
            self.folders@.len() > 0 ==> {
                &&& tabs@.len() == self.folders@.len() + 1
                &&& exists|all: Folder| is_all(all) && #[trigger] self.tab_shows(tabs@[0], all)
                &&& forall|i: int|
                    0 <= i < self.folders@.len() ==> self.tab_shows(
                        #[trigger] tabs@[i + 1],
                        self.folders@[i],
                    )
            },
    {
        let mut tabs: Vec<FolderTab> = Vec::new();
        if self.folders.len() == 0 {
            return tabs;
        }
        let all = Folder { id: 0, title: "All".to_owned(), chats: Vec::new() };
        assert(is_all(all));
        assert(unread_in(self.table.chats@, all) <= i32::MAX);
        tabs.push(self.tab(&all));
        assert(is_all(all) && self.tab_shows(tabs@[0], all));
        let mut i: usize = 0;
        while i < self.folders.len()
            invariant
                self.tabs_countable(),
                i <= self.folders@.len(),
                tabs@.len() == i + 1,
                is_all(all),
                self.tab_shows(tabs@[0], all),
                forall|j: int|
                    1 <= j <= i ==> self.tab_shows(#[trigger] tabs@[j], self.folders@[j - 1]),
            decreases self.folders@.len() - i,
        {
            assert(unread_in(self.table.chats@, self.folders@[i as int]) <= i32::MAX);
            let tab = self.tab(&self.folders[i]);
            tabs.push(tab);
            i += 1;
        }
        tabs
    }
}

/// What showing the archive makes of the list.
pub open spec fn archive_shown(before: ChatList, after: ChatList) -> bool {
    &&& after.mode is Archived
    &&& after.bars == (Bars {
        menu_button: false,
        back_button: true,
        archived_title: !before.bars.collapsed,
        search: !before.bars.collapsed,
        folder_bar: false,
        page: Page::Dialogs,
        ..before.bars
    })
    &&& after == (ChatList { mode: after.mode, bars: after.bars, ..before })
}

/// What going back from the archive makes of the list.
pub open spec fn archive_left(before: ChatList, after: ChatList) -> bool {
    &&& after.mode == SidebarMode::Dialogs(before.prior_folder())
    &&& after.prior_mode == SidebarMode::Dialogs(before.prior_folder())
    &&& after.bars == (Bars {
        menu_button: true,
        back_button: false,
        archived_title: false,
        search: !before.bars.collapsed,
        folder_bar: !before.bars.collapsed && before.folders@.len() > 0,
        page: Page::Dialogs,
        ..before.bars
    })
    &&& after == (ChatList {
        mode: after.mode,
        prior_mode: after.prior_mode,
        bars: after.bars,
        ..before
    })
}

/// From the archive one comes back to the folder from which it was opened.
pub proof fn law_archive_goes_back(before: ChatList, archive: ChatList, after: ChatList)
    requires
        before.well_formed(),
        before.mode is Dialogs,
        archive_shown(before, archive),
        archive_left(archive, after),
    ensures
        after.mode == before.mode,
        after.visible() == before.visible(),
{
    assert(after.is_visible() =~= before.is_visible());
}

} // verus!
