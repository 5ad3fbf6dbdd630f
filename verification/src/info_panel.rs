//! The panel with a chat's profile, its members and what they shared.

use std::collections::HashMap;
use std::path::PathBuf;

use vstd::prelude::*;

use crate::avatar::Avatar;
use crate::clock::{short_date_text, Stamp};
use crate::icons;
use crate::text::{decimal, duration_text, minutes_text, push_integer, push_padded, two_digits};
use crate::tg::{
    ChatInfo, ChatKind, ChatSummary, Member, MemberRole, Msg, Presence, SharedKind,
};

verus! {

/// How many members or messages are asked for at once.
pub const PAGE_SIZE: usize = 50;

/// How large the profile's picture is.
pub const PROFILE_SIZE: i32 = 96;

/// Where the panel stands.
#[derive(Debug, Clone, Copy, PartialEq, Eq, Structural)]
pub enum InfoLayout {
    Hidden,
    Column,
    Overlay,
}

/// What can be asked for from the panel.
#[derive(Debug, Clone, Copy, PartialEq, Eq, Structural)]
pub enum InfoAction {
    Close,
    RetryInfo,
    OpenPhoto,
    SetNotifications(bool),
    OpenMember(i64),
    MoreMembers,
    RetryMembers,
    SelectShared(SharedKind),
    MoreShared,
    RetryShared,
    OpenMedia(i32),
}

/// The line below a list that says how its loading goes.
pub struct LoadLine {
    pub text: String,
    pub visible: bool,
    pub error: bool,
    pub spinner: bool,
    pub retry: bool,
    pub more: bool,
}

impl LoadLine {
    /// What the line shows.
    pub open spec fn shows(
        self,
        text: Seq<char>,
        visible: bool,
        error: bool,
        spinner: bool,
        retry: bool,
        more: bool,
    ) -> bool {
        &&& self.text@ == text
        &&& self.visible == visible
        &&& self.error == error
        &&& self.spinner == spinner
        &&& self.retry == retry
        &&& self.more == more
    }

    fn new() -> (line: LoadLine)
        ensures
            line.shows(Seq::empty(), true, false, false, false, false),
    {
        LoadLine {
            text: String::new(),
            visible: true,
            error: false,
            spinner: false,
            retry: false,
            more: false,
        }
    }

    fn loading(&mut self, text: &str)
        ensures
            final(self).shows(text@, true, false, true, false, false),
    {
        *self = LoadLine {
            text: text.to_owned(),
            visible: true,
            error: false,
            spinner: true,
            retry: false,
            more: false,
        };
    }

    fn failed(&mut self, error: &str)
        ensures
            final(self).shows(error@, true, true, false, true, false),
    {
        *self = LoadLine {
            text: error.to_owned(),
            visible: true,
            error: true,
            spinner: false,
            retry: true,
            more: false,
        };
    }

    /// A page has come. The line is left only where there is nothing to list.
    fn loaded(&mut self, empty: bool, note: &str, more: bool)
        ensures
            final(self).shows(
                if empty { note@ } else { Seq::empty() },
                empty,
                old(self).error,
                false,
                false,
                more,
            ),
    {
        let error = self.error;
        *self = LoadLine {
            text: if empty { note.to_owned() } else { String::new() },
            visible: empty,
            error,
            spinner: false,
            retry: false,
            more,
        };
    }
}

/// What the panel says of the chat itself.
pub struct Profile {
    pub title: String,
    pub status: String,
    pub avatar: Avatar,
    pub photo_shown: bool,
    /// Whether the photo can be opened.
    pub photo_enabled: bool,
    pub username: String,
    pub username_shown: bool,
    pub phone: String,
    pub phone_shown: bool,
    pub about: String,
    pub about_shown: bool,
    pub notifications: bool,
}

/// Which chat the panel shows, and which answers it still waits for.
#[derive(Debug, Clone, Copy, PartialEq, Eq, Structural)]
pub struct Binding {
    pub chat: Option<i64>,
    pub generation: u64,
    pub shared_generation: u64,
    pub shared_kind: SharedKind,
}

impl Binding {
    /// Whether an answer belongs to what is shown.
    pub open spec fn matches(self, chat_id: i64, generation: u64) -> bool {
        self.chat == Some(chat_id) && self.generation == generation
    }

    /// Whether an answer belongs to the tab that is shown.
    pub open spec fn shared_matches(
        self,
        chat_id: i64,
        generation: u64,
        shared_generation: u64,
        kind: SharedKind,
    ) -> bool {
        self.matches(chat_id, generation) && self.shared_generation == shared_generation
            && self.shared_kind == kind
    }

    fn is_for(self, chat_id: i64, generation: u64) -> (answer: bool)
        ensures
            answer == self.matches(chat_id, generation),
    {
        match self.chat {
            Some(chat) => chat == chat_id && self.generation == generation,
            None => false,
        }
    }

    fn is_for_shared(
        self,
        chat_id: i64,
        generation: u64,
        shared_generation: u64,
        kind: SharedKind,
    ) -> (answer: bool)
        ensures
            answer == self.shared_matches(chat_id, generation, shared_generation, kind),
    {
        self.is_for(chat_id, generation) && self.shared_generation == shared_generation
            && self.shared_kind == kind
    }
}

/// A request for shared media: the chat, the two numbers that the answer must name,
/// the kind, and the message before which to go on.
#[derive(Debug, Clone, Copy, PartialEq, Eq, Structural)]
pub struct SharedRequest {
    pub chat_id: i64,
    pub generation: u64,
    pub shared_generation: u64,
    pub kind: SharedKind,
    pub before_id: Option<i32>,
}

/// The panel.
pub struct InfoPanel {
    pub binding: Binding,
    pub profile: Profile,
    pub info_line: LoadLine,
    pub members_shown: bool,
    pub members: Vec<Member>,
    pub members_exhausted: bool,
    pub members_line: LoadLine,
    pub shared: Vec<Msg>,
    pub shared_exhausted: bool,
    pub shared_line: LoadLine,
    /// The files of the photos whose thumbnails are shown.
    pub shared_paths: HashMap<i32, PathBuf>,
    pub show_avatars: bool,
    pub layout: InfoLayout,
}

/// Whether a message is among others.
pub open spec fn holds(messages: Seq<Msg>, id: i32) -> bool {
    exists|at: int| 0 <= at < messages.len() && (#[trigger] messages[at]).id == id
}

/// The messages with those of a page behind them, each once.
pub open spec fn joined(messages: Seq<Msg>, page: Seq<Msg>, given: int) -> Seq<Msg>
    decreases given,
{
    if given <= 0 {
        messages
    } else {
        let earlier = joined(messages, page, given - 1);
        if holds(earlier, page[given - 1].id) {
            earlier
        } else {
            earlier.push(page[given - 1])
        }
    }
}

/// Whether no message occurs twice.
pub open spec fn all_differ(messages: Seq<Msg>) -> bool {
    forall|i: int, j: int|
        0 <= i < j < messages.len() ==> (#[trigger] messages[i]).id != (#[trigger] messages[j]).id
}

proof fn lemma_joined_differ(messages: Seq<Msg>, page: Seq<Msg>, given: int)
    requires
        all_differ(messages),
        0 <= given <= page.len(),
    ensures
        all_differ(joined(messages, page, given)),
    decreases given,
{
    if given > 0 {
        lemma_joined_differ(messages, page, given - 1);
        let earlier = joined(messages, page, given - 1);
        let all = joined(messages, page, given);
        assert forall|i: int, j: int| 0 <= i < j < all.len() implies (#[trigger] all[i]).id != (
        #[trigger] all[j]).id by {
            if j < earlier.len() {
                assert(earlier[i].id != earlier[j].id);
            } else {
                assert(earlier[i] == all[i]);
            }
        }
    }
}

/// The id of the last message.
pub open spec fn last_id(messages: Seq<Msg>) -> Option<i32> {
    if messages.len() == 0 {
        None
    } else {
        Some(messages.last().id)
    }
}

fn has_message(messages: &Vec<Msg>, id: i32) -> (found: bool)
    ensures
        found == holds(messages@, id),
{
    let mut i: usize = 0;
    while i < messages.len()
        invariant
            i <= messages@.len(),
            forall|j: int| 0 <= j < i ==> (#[trigger] messages@[j]).id != id,
        decreases messages@.len() - i,
    {
        if messages[i].id == id {
            return true;
        }
        i += 1;
    }
    false
}

fn last_message_id(messages: &Vec<Msg>) -> (id: Option<i32>)
    ensures
        id == last_id(messages@),
{
    if messages.len() == 0 {
        None
    } else {
        Some(messages[messages.len() - 1].id)
    }
}

/// The key of a kind of shared media. It names the kind's tab.
pub open spec fn key_of(kind: SharedKind) -> Seq<char> {
    match kind {
        SharedKind::Photos => "photos"@,
        SharedKind::Files => "files"@,
        SharedKind::Links => "links"@,
        SharedKind::Voice => "voice"@,
        SharedKind::Music => "music"@,
    }
}

pub fn shared_kind_key(kind: SharedKind) -> (key: &'static str)
    ensures
        key@ == key_of(kind),
{
    match kind {
        SharedKind::Photos => "photos",
        SharedKind::Files => "files",
        SharedKind::Links => "links",
        SharedKind::Voice => "voice",
        SharedKind::Music => "music",
    }
}

/// No two kinds of shared media have the same key.
pub proof fn law_keys_differ(left: SharedKind, right: SharedKind)
    ensures
        key_of(left) == key_of(right) <==> left == right,
{
    reveal_strlit("photos");
    reveal_strlit("files");
    reveal_strlit("links");
    reveal_strlit("voice");
    reveal_strlit("music");
    assert("photos"@[0] == 'p');
    assert("files"@[0] == 'f');
    assert("links"@[0] == 'l');
    assert("voice"@[0] == 'v');
    assert("music"@[0] == 'm');
}

/// When a user was last seen, as a profile says it.
pub open spec fn presence_words(presence: Presence, now: Stamp) -> Seq<char> {
    match presence {
        Presence::Online => "online"@,
        Presence::LastSeen(time) => if time.calendar() == now.calendar() {
            "last seen at "@ + two_digits(time.hour()) + ":"@ + two_digits(time.minute())
        } else {
            "last seen "@ + short_date_text(time.calendar())
        },
        Presence::Recently => "last seen recently"@,
        Presence::LastWeek => "last seen within a week"@,
        Presence::LastMonth => "last seen within a month"@,
        Presence::LongAgo => "last seen a long time ago"@,
        Presence::Unknown => "status unknown"@,
    }
}

pub fn presence_text(presence: Presence, now: Stamp) -> (text: String)
    ensures
        text@ == presence_words(presence, now),
{
    match presence {
        Presence::Online => "online".to_owned(),
        Presence::LastSeen(time) => {
            if time.date() == now.date() {
                let mut text = "last seen at ".to_owned();
                let (hour, minute) = time.hour_and_minute();
                push_padded(&mut text, hour as u64);
                text.push_str(":");
                push_padded(&mut text, minute as u64);
                text
            } else {
                let mut text = "last seen ".to_owned();
                let date = time.short_date();
                text.push_str(&date);
                text
            }
        },
        Presence::Recently => "last seen recently".to_owned(),
        Presence::LastWeek => "last seen within a week".to_owned(),
        Presence::LastMonth => "last seen within a month".to_owned(),
        Presence::LongAgo => "last seen a long time ago".to_owned(),
        Presence::Unknown => "status unknown".to_owned(),
    }
}

/// What stands below a chat's title.
pub open spec fn status_words(info: ChatInfo, now: Stamp) -> Seq<char> {
    let members = match info.members {
        Some(count) => count as int,
        None => 0,
    };
    match info.kind {
        ChatKind::Group => decimal(members) + " members"@,
        ChatKind::Channel => decimal(members) + " subscribers"@,
        ChatKind::Bot => "bot"@,
        ChatKind::Saved => "saved messages"@,
        ChatKind::User => presence_words(info.presence, now),
    }
}

fn counted(count: Option<i32>, of: &str) -> (text: String)
    ensures
        text@ == decimal(match count {
            Some(count) => count as int,
            None => 0,
        }) + of@,
{
    let mut text = String::new();
    push_integer(
        &mut text,
        match count {
            Some(count) => count as i64,
            None => 0,
        },
    );
    text.push_str(of);
    assert(text@ =~= decimal(match count {
        Some(count) => count as int,
        None => 0,
    }) + of@);
    text
}

pub fn chat_status(info: &ChatInfo, now: Stamp) -> (text: String)
    ensures
        text@ == status_words(*info, now),
{
    match info.kind {
        ChatKind::Group => counted(info.members, " members"),
        ChatKind::Channel => counted(info.members, " subscribers"),
        ChatKind::Bot => "bot".to_owned(),
        ChatKind::Saved => "saved messages".to_owned(),
        ChatKind::User => presence_text(info.presence, now),
    }
}

/// The badge of a member's role. Plain members have none.
pub fn role_badge(role: MemberRole) -> (badge: &'static str)
    ensures
        badge@ == (match role {
            MemberRole::Creator => "owner"@,
            MemberRole::Admin => "admin"@,
            MemberRole::Member => ""@,
        }),
{
    match role {
        MemberRole::Creator => "owner",
        MemberRole::Admin => "admin",
        MemberRole::Member => "",
    }
}

/// What the row of a shared message says.
pub open spec fn shared_words(kind: SharedKind, msg: Msg) -> Seq<char> {
    match kind {
        SharedKind::Files => icons::FILE@ + "  "@ + (match msg.doc_name {
            Some(name) => name@,
            None => "File"@,
        }),
        SharedKind::Links => icons::LINK@ + "  "@ + (match msg.webpage {
            Some(url) => url@,
            None => msg.text@,
        }),
        SharedKind::Voice => icons::MIC@ + "  "@ + (match msg.duration {
            Some(seconds) => "Voice message · "@ + minutes_text(seconds as int),
            None => "Voice message"@,
        }),
        SharedKind::Photos | SharedKind::Music => icons::FILE@ + "  "@ + msg.text@,
    }
}

pub fn shared_label(kind: SharedKind, msg: &Msg) -> (label: String)
    ensures
        label@ == shared_words(kind, *msg),
{
    let icon = match kind {
        SharedKind::Files => icons::FILE,
        SharedKind::Links => icons::LINK,
        SharedKind::Voice => icons::MIC,
        SharedKind::Photos | SharedKind::Music => icons::FILE,
    };
    let title = match kind {
        SharedKind::Files => match &msg.doc_name {
            Some(name) => name.clone(),
            None => "File".to_owned(),
        },
        SharedKind::Links => match &msg.webpage {
            Some(url) => url.clone(),
            None => msg.text.clone(),
        },
        SharedKind::Voice => match msg.duration {
            Some(seconds) => {
                let mut title = "Voice message · ".to_owned();
                let duration = duration_text(seconds);
                title.push_str(&duration);
                title
            },
            None => "Voice message".to_owned(),
        },
        SharedKind::Photos | SharedKind::Music => msg.text.clone(),
    };
    let mut label = icon.to_owned();
    label.push_str("  ");
    label.push_str(&title);
    label
}

/// Where a photo stands in the grid: its column of three, and its row. The row zero
/// keeps the columns' places.
pub fn grid_cell(index: usize) -> (cell: (usize, usize))
    ensures
        cell.0 == index % 3,
        cell.1 == index / 3 + 1,
{
    (index % 3, index / 3 + 1)
}

/// No two photos stand in one cell.
pub proof fn law_cells_differ(left: usize, right: usize)
    ensures
        (left % 3 == right % 3 && left / 3 + 1 == right / 3 + 1) <==> left == right,
{
}

impl Profile {
    /// What a chat that is being loaded looks like.
    pub open spec fn bound(self, before: Profile, chat: ChatSummary, show_avatars: bool) -> bool {
        &&& self.title@ == chat.title@
        &&& self.status@ == "Loading…"@
        &&& self.photo_shown == show_avatars
        &&& self.photo_enabled == chat.has_photo
        &&& !self.username_shown && !self.phone_shown && !self.about_shown
        &&& self.notifications == !chat.muted
        &&& self.avatar.bound(before.avatar, chat.id, chat.title@)
        &&& self.username == before.username && self.phone == before.phone && self.about
            == before.about
    }

    /// What the profile is before any chat was shown.
    pub open spec fn blank(self) -> bool {
        &&& self.title@.len() == 0
        &&& self.status@.len() == 0
        &&& self.avatar.unbound(PROFILE_SIZE)
        &&& self.photo_shown && self.photo_enabled
        &&& self.username@.len() == 0 && self.username_shown
        &&& self.phone@.len() == 0 && self.phone_shown
        &&& self.about@.len() == 0 && self.about_shown
        &&& !self.notifications
    }

    /// What a chat's profile looks like.
    pub open spec fn filled(
        self,
        before: Profile,
        info: ChatInfo,
        show_avatars: bool,
        now: Stamp,
    ) -> bool {
        &&& self.title@ == info.title@
        &&& self.status@ == status_words(info, now)
        &&& self.photo_shown == show_avatars
        &&& self.photo_enabled == info.has_photo
        &&& self.username@ == (if info.username@.len() == 0 {
            Seq::empty()
        } else {
            "@"@ + info.username@
        })
        &&& self.username_shown == (info.username@.len() > 0)
        &&& self.phone@ == info.phone@
        &&& self.phone_shown == (info.phone@.len() > 0)
        &&& self.about@ == info.about@
        &&& self.about_shown == (info.about@.len() > 0)
        &&& self.notifications == !info.muted
        &&& self.avatar.bound(before.avatar, info.id, info.title@)
    }

    fn bind(&mut self, chat: &ChatSummary, show_avatars: bool) -> (photo: Option<u64>)
        ensures
            final(self).bound(*old(self), *chat, show_avatars),
            photo == (if chat.has_photo && show_avatars {
                Some(final(self).avatar.generation)
            } else {
                None
            }),
    {
        self.title = chat.title.clone();
        self.status = "Loading…".to_owned();
        self.photo_shown = show_avatars;
        self.photo_enabled = chat.has_photo;
        self.username_shown = false;
        self.phone_shown = false;
        self.about_shown = false;
        self.notifications = !chat.muted;
        self.avatar.bind(chat.id, chat.title.as_str(), chat.has_photo && show_avatars)
    }

    fn fill(&mut self, info: &ChatInfo, show_avatars: bool, now: Stamp) -> (photo: Option<u64>)
        ensures
            final(self).filled(*old(self), *info, show_avatars, now),
            photo == (if info.has_photo && show_avatars {
                Some(final(self).avatar.generation)
            } else {
                None
            }),
    {
        self.title = info.title.clone();
        self.status = chat_status(info, now);
        self.photo_shown = show_avatars;
        self.photo_enabled = info.has_photo;
        let has_username = info.username.as_str().unicode_len() > 0;
        self.username = if has_username {
            let mut name = "@".to_owned();
            name.push_str(&info.username);
            name
        } else {
            String::new()
        };
        self.username_shown = has_username;
        self.phone = info.phone.clone();
        self.phone_shown = info.phone.as_str().unicode_len() > 0;
        self.about = info.about.clone();
        self.about_shown = info.about.as_str().unicode_len() > 0;
        self.notifications = !info.muted;
        self.avatar.bind(info.id, info.title.as_str(), info.has_photo && show_avatars)
    }
}

impl InfoPanel {
    /// No shared message is listed twice.
    pub open spec fn well_formed(self) -> bool {
        all_differ(self.shared@)
    }

    pub fn new() -> (panel: InfoPanel)
        ensures
            panel.well_formed(),
            panel.binding == (Binding {
                chat: None,
                generation: 0,
                shared_generation: 0,
                shared_kind: SharedKind::Photos,
            }),
            panel.members@.len() == 0,
            !panel.members_shown,
            panel.shared@.len() == 0,
            panel.shared_paths@ == Map::<i32, PathBuf>::empty(),
            panel.show_avatars,
            panel.layout is Hidden,
            !panel.members_exhausted,
            !panel.shared_exhausted,
            panel.info_line.shows(Seq::empty(), true, false, false, false, false),
            panel.members_line.shows(Seq::empty(), true, false, false, false, false),
            panel.shared_line.shows(Seq::empty(), true, false, false, false, false),
            panel.profile.blank(),
    {
        InfoPanel {
            binding: Binding {
                chat: None,
                generation: 0,
                shared_generation: 0,
                shared_kind: SharedKind::Photos,
            },
            profile: Profile {
                title: String::new(),
                status: String::new(),
                avatar: Avatar::new(PROFILE_SIZE),
                photo_shown: true,
                photo_enabled: true,
                username: String::new(),
                username_shown: true,
                phone: String::new(),
                phone_shown: true,
                about: String::new(),
                about_shown: true,
                notifications: false,
            },
            info_line: LoadLine::new(),
            members_shown: false,
            members: Vec::new(),
            members_exhausted: false,
            members_line: LoadLine::new(),
            shared: Vec::new(),
            shared_exhausted: false,
            shared_line: LoadLine::new(),
            shared_paths: HashMap::new(),
            show_avatars: true,
            layout: InfoLayout::Hidden,
        }
    }

    /// Shows another chat, with placeholders for all that is still to be loaded.
    /// Returns the number that answers must name, and the one under which the chat's
    /// photo is to be loaded.
    pub fn bind(&mut self, summary: &ChatSummary) -> (request: (u64, Option<u64>))
        ensures
            final(self).well_formed(),
            final(self).binding == (Binding {
                chat: Some(summary.id),
                generation: old(self).binding.generation.wrapping_add(1),
                shared_generation: old(self).binding.shared_generation.wrapping_add(1).wrapping_add(
                    1,
                ),
                shared_kind: SharedKind::Photos,
            }),
            request.0 == final(self).binding.generation,
            request.1 == (if summary.has_photo && old(self).show_avatars {
                Some(final(self).profile.avatar.generation)
            } else {
                None
            }),
            final(self).profile.bound(old(self).profile, *summary, old(self).show_avatars),
            final(self).info_line.shows("Loading chat info…"@, true, false, true, false, old(self).info_line.more),
            final(self).members@.len() == 0,
            !final(self).members_exhausted,
            final(self).members_shown == (summary.kind == ChatKind::Group),
            final(self).members_line.shows(
                "Loading members…"@,
                summary.kind == ChatKind::Group,
                old(self).members_line.error,
                summary.kind == ChatKind::Group,
                false,
                false,
            ),
            final(self).shared@.len() == 0,
            !final(self).shared_exhausted,
            final(self).shared_paths@ == Map::<i32, PathBuf>::empty(),
            final(self).shared_line.shows("Loading shared media…"@, true, false, true, false, false),
            final(self).show_avatars == old(self).show_avatars,
            final(self).layout == old(self).layout,
    {
        let before = self.binding;
        let generation: u64 = before.generation.wrapping_add(1);
        self.binding = Binding {
            chat: Some(summary.id),
            generation,
            shared_generation: before.shared_generation.wrapping_add(1),
            ..before
        };
        let photo = self.profile.bind(summary, self.show_avatars);
        let more = self.info_line.more;
        self.info_line.loading("Loading chat info…");
        self.info_line.more = more;
        let group = summary.kind == ChatKind::Group;
        let error = self.members_line.error;
        self.members = Vec::new();
        self.members_shown = group;
        self.members_line = LoadLine {
            text: "Loading members…".to_owned(),
            visible: group,
            error,
            spinner: group,
            retry: false,
            more: false,
        };
        self.members_exhausted = false;
        let _request = self.begin_shared(SharedKind::Photos);
        (generation, photo)
    }

    /// Shows no chat any more. No answer that is still to come will change anything.
    pub fn unbind(&mut self)
        ensures
            final(self).well_formed(),
            final(self).binding == (Binding {
                chat: None,
                generation: old(self).binding.generation.wrapping_add(1),
                shared_generation: old(self).binding.shared_generation.wrapping_add(1),
                ..old(self).binding
            }),
            final(self).info_line == (LoadLine { spinner: false, ..old(self).info_line }),
            final(self).members_line == (LoadLine { spinner: false, ..old(self).members_line }),
            final(self).shared_line == (LoadLine { spinner: false, ..old(self).shared_line }),
            final(self).members@.len() == 0,
            final(self).shared@.len() == 0,
            final(self).shared_paths@ == Map::<i32, PathBuf>::empty(),
            *final(self) == (InfoPanel {
                binding: final(self).binding,
                info_line: final(self).info_line,
                members_line: final(self).members_line,
                shared_line: final(self).shared_line,
                members: final(self).members,
                shared: final(self).shared,
                shared_paths: final(self).shared_paths,
                ..*old(self)
            }),
    {
        let before = self.binding;
        self.binding = Binding {
            chat: None,
            generation: before.generation.wrapping_add(1),
            shared_generation: before.shared_generation.wrapping_add(1),
            ..before
        };
        self.info_line.spinner = false;
        self.members_line.spinner = false;
        self.shared_line.spinner = false;
        self.members = Vec::new();
        self.shared = Vec::new();
        self.shared_paths = HashMap::new();
    }

    /// The profile has come. Returns whether it is the one that is shown, and the
    /// number under which the chat's photo is to be loaded.
    pub fn finish_info(&mut self, chat_id: i64, generation: u64, info: &ChatInfo, now: Stamp) -> (
        taken: (bool, Option<u64>))
        ensures
            taken.0 == old(self).binding.matches(chat_id, generation),
            !taken.0 ==> *final(self) == *old(self) && taken.1 is None,
            taken.0 ==> {
                &&& final(self).profile.filled(old(self).profile, *info, old(self).show_avatars, now)
                &&& taken.1 == (if info.has_photo && old(self).show_avatars {
                    Some(final(self).profile.avatar.generation)
                } else {
                    None
                })
                &&& final(self).info_line == (LoadLine {
                    visible: false,
                    spinner: false,
                    retry: false,
                    ..old(self).info_line
                })
                &&& final(self).members_shown == (info.kind == ChatKind::Group)
            },
            *final(self) == (InfoPanel {
                profile: final(self).profile,
                info_line: final(self).info_line,
                members_shown: final(self).members_shown,
                ..*old(self)
            }),
    {
        if !self.binding.is_for(chat_id, generation) {
            return (false, None);
        }
        let photo = self.profile.fill(info, self.show_avatars, now);
        self.info_line.visible = false;
        self.info_line.spinner = false;
        self.info_line.retry = false;
        self.members_shown = info.kind == ChatKind::Group;
        (true, photo)
    }

    /// The profile could not be loaded.
    pub fn fail_info(&mut self, chat_id: i64, generation: u64, error: &str) -> (taken: bool)
        ensures
            taken == old(self).binding.matches(chat_id, generation),
            !taken ==> *final(self) == *old(self),
            taken ==> final(self).info_line.shows(
                error@,
                true,
                true,
                false,
                true,
                old(self).info_line.more,
            ),
            *final(self) == (InfoPanel { info_line: final(self).info_line, ..*old(self) }),
    {
        if !self.binding.is_for(chat_id, generation) {
            return false;
        }
        let more = self.info_line.more;
        self.info_line.failed(error);
        self.info_line.more = more;
        true
    }

    /// Asks for the members from `offset` on. Returns the chat, the number that the
    /// answer must name, and the offset.
    pub fn begin_members(&mut self, offset: usize) -> (request: Option<(i64, u64, usize)>)
        ensures
            request == (match old(self).binding.chat {
                Some(chat) => Some((chat, old(self).binding.generation, offset)),
                None => None,
            }),
            request is None ==> *final(self) == *old(self),
            request is Some ==> {
                &&& offset == 0 ==> final(self).members@.len() == 0
                &&& offset != 0 ==> final(self).members == old(self).members
                &&& final(self).members_line.shows(
                    "Loading members…"@,
                    true,
                    false,
                    true,
                    false,
                    false,
                )
            },
            *final(self) == (InfoPanel {
                members: final(self).members,
                members_line: final(self).members_line,
                ..*old(self)
            }),
    {
        let chat = match self.binding.chat {
            Some(chat) => chat,
            None => return None,
        };
        if offset == 0 {
            self.members = Vec::new();
        }
        self.members_line.loading("Loading members…");
        Some((chat, self.binding.generation, offset))
    }

    /// A page of members has come. Only the page behind the members that are listed
    /// is taken.
    pub fn finish_members(
        &mut self,
        chat_id: i64,
        generation: u64,
        offset: usize,
        page: Vec<Member>,
    ) -> (taken: bool)
        ensures
            taken == (old(self).binding.matches(chat_id, generation) && offset == old(
                self,
            ).members@.len()),
            !taken ==> *final(self) == *old(self),
            taken ==> {
                &&& final(self).members@ == old(self).members@ + page@
                &&& final(self).members_exhausted == (page@.len() < PAGE_SIZE)
                &&& final(self).members_line.shows(
                    if final(self).members@.len() == 0 { "No members"@ } else { Seq::empty() },
                    final(self).members@.len() == 0,
                    old(self).members_line.error,
                    false,
                    false,
                    page@.len() >= PAGE_SIZE,
                )
            },
            *final(self) == (InfoPanel {
                members: final(self).members,
                members_exhausted: final(self).members_exhausted,
                members_line: final(self).members_line,
                ..*old(self)
            }),
    {
        if !self.binding.is_for(chat_id, generation) || offset != self.members.len() {
            return false;
        }
        let mut page = page;
        let exhausted = page.len() < PAGE_SIZE;
        self.members.append(&mut page);
        self.members_exhausted = exhausted;
        let empty = self.members.len() == 0;
        self.members_line.loaded(empty, "No members", !exhausted);
        true
    }

    /// A page of members could not be loaded.
    pub fn fail_members(&mut self, chat_id: i64, generation: u64, offset: usize, error: &str) -> (
        taken: bool)
        ensures
            taken == (old(self).binding.matches(chat_id, generation) && offset == old(
                self,
            ).members@.len()),
            !taken ==> *final(self) == *old(self),
            taken ==> final(self).members_line.shows(error@, true, true, false, true, false),
            *final(self) == (InfoPanel { members_line: final(self).members_line, ..*old(self) }),
    {
        if !self.binding.is_for(chat_id, generation) || offset != self.members.len() {
            return false;
        }
        self.members_line.failed(error);
        true
    }

    /// Opens a tab of shared media.
    pub fn begin_shared(&mut self, kind: SharedKind) -> (request: Option<SharedRequest>)
        ensures
            old(self).binding.chat is None ==> request is None && *final(self) == *old(self),
            old(self).binding.chat is Some ==> {
                &&& final(self).binding == (Binding {
                    shared_generation: old(self).binding.shared_generation.wrapping_add(1),
                    shared_kind: kind,
                    ..old(self).binding
                })
                &&& request == Some(
                    SharedRequest {
                        chat_id: old(self).binding.chat->0,
                        generation: old(self).binding.generation,
                        shared_generation: final(self).binding.shared_generation,
                        kind,
                        before_id: None,
                    },
                )
                &&& final(self).shared@.len() == 0
                &&& final(self).well_formed()
                &&& final(self).shared_paths@ == Map::<i32, PathBuf>::empty()
                &&& !final(self).shared_exhausted
                &&& final(self).shared_line.shows(
                    "Loading shared media…"@,
                    true,
                    false,
                    true,
                    false,
                    false,
                )
            },
            *final(self) == (InfoPanel {
                binding: final(self).binding,
                shared: final(self).shared,
                shared_paths: final(self).shared_paths,
                shared_exhausted: final(self).shared_exhausted,
                shared_line: final(self).shared_line,
                ..*old(self)
            }),
    {
        let before = self.binding;
        let chat_id = match before.chat {
            Some(chat) => chat,
            None => return None,
        };
        let shared_generation: u64 = before.shared_generation.wrapping_add(1);
        self.binding = Binding { shared_generation, shared_kind: kind, ..before };
        self.shared = Vec::new();
        self.shared_paths = HashMap::new();
        self.shared_line.loading("Loading shared media…");
        self.shared_exhausted = false;
        Some(
            SharedRequest {
                chat_id,
                generation: before.generation,
                shared_generation,
                kind,
                before_id: None,
            },
        )
    }

    /// Asks for the next page of the tab that is open.
    pub fn begin_shared_page(&mut self) -> (request: Option<SharedRequest>)
        ensures
            request is Some <==> !old(self).shared_exhausted && old(self).binding.chat is Some,
            request is None ==> *final(self) == *old(self),
            request is Some ==> {
                &&& request == Some(
                    SharedRequest {
                        chat_id: old(self).binding.chat->0,
                        generation: old(self).binding.generation,
                        shared_generation: old(self).binding.shared_generation,
                        kind: old(self).binding.shared_kind,
                        before_id: last_id(old(self).shared@),
                    },
                )
                &&& final(self).shared_line.shows(
                    if old(self).shared@.len() > 0 {
                        "Loading more…"@
                    } else {
                        "Loading shared media…"@
                    },
                    true,
                    false,
                    true,
                    false,
                    false,
                )
            },
            *final(self) == (InfoPanel { shared_line: final(self).shared_line, ..*old(self) }),
    {
        if self.shared_exhausted {
            return None;
        }
        let binding = self.binding;
        let chat_id = match binding.chat {
            Some(chat) => chat,
            None => return None,
        };
        let before_id = last_message_id(&self.shared);
        let text = if before_id.is_some() { "Loading more…" } else { "Loading shared media…" };
        self.shared_line.loading(text);
        Some(
            SharedRequest {
                chat_id,
                generation: binding.generation,
                shared_generation: binding.shared_generation,
                kind: binding.shared_kind,
                before_id,
            },
        )
    }

    /// A page of shared media has come. A page that was asked for before another one
    /// came is not taken.
    pub fn finish_shared(&mut self, request: SharedRequest, page: Vec<Msg>) -> (taken: bool)
        requires
            old(self).well_formed(),
        ensures
            final(self).well_formed(),
            taken == (old(self).binding.shared_matches(
                request.chat_id,
                request.generation,
                request.shared_generation,
                request.kind,
            ) && (request.before_id is None || request.before_id == last_id(old(self).shared@))),
            !taken ==> *final(self) == *old(self),
            taken ==> {
                &&& final(self).shared@ == joined(
                    old(self).shared@,
                    page@,
                    page@.len() as int,
                )
                &&& final(self).shared_exhausted == (page@.len() < PAGE_SIZE)
                &&& final(self).shared_line.shows(
                    if final(self).shared@.len() == 0 { "No shared media"@ } else { Seq::empty() },
                    final(self).shared@.len() == 0,
                    old(self).shared_line.error,
                    false,
                    false,
                    page@.len() >= PAGE_SIZE,
                )
            },
            *final(self) == (InfoPanel {
                shared: final(self).shared,
                shared_exhausted: final(self).shared_exhausted,
                shared_line: final(self).shared_line,
                ..*old(self)
            }),
    {
        if !self.binding.is_for_shared(
            request.chat_id,
            request.generation,
            request.shared_generation,
            request.kind,
        ) {
            return false;
        }
        let expected = last_message_id(&self.shared);
        if request.before_id.is_some() && request.before_id != expected {
            return false;
        }
        let exhausted = page.len() < PAGE_SIZE;
        let ghost before = self.shared@;
        let ghost all = page@;
        append_page(&mut self.shared, page);
        proof {
            lemma_joined_differ(before, all, all.len() as int);
        }
        self.shared_exhausted = exhausted;
        let empty = self.shared.len() == 0;
        self.shared_line.loaded(empty, "No shared media", !exhausted);
        true
    }

    /// A page of shared media could not be loaded.
    pub fn fail_shared(
        &mut self,
        chat_id: i64,
        generation: u64,
        shared_generation: u64,
        kind: SharedKind,
        error: &str,
    ) -> (taken: bool)
        ensures
            taken == old(self).binding.shared_matches(chat_id, generation, shared_generation, kind),
            !taken ==> *final(self) == *old(self),
            taken ==> final(self).shared_line.shows(error@, true, true, false, true, false),
            *final(self) == (InfoPanel { shared_line: final(self).shared_line, ..*old(self) }),
    {
        if !self.binding.is_for_shared(chat_id, generation, shared_generation, kind) {
            return false;
        }
        self.shared_line.failed(error);
        true
    }

    /// The thumbnail of a photo that is listed has come.
    pub fn set_thumbnail(
        &mut self,
        chat_id: i64,
        generation: u64,
        shared_generation: u64,
        msg_id: i32,
        path: PathBuf,
    ) -> (taken: bool)
        ensures
            taken == (old(self).binding.shared_matches(
                chat_id,
                generation,
                shared_generation,
                SharedKind::Photos,
            ) && holds(old(self).shared@, msg_id)),
            final(self).shared_paths@ == (if taken {
                old(self).shared_paths@.insert(msg_id, path)
            } else {
                old(self).shared_paths@
            }),
            *final(self) == (InfoPanel { shared_paths: final(self).shared_paths, ..*old(self) }),
    {
        broadcast use vstd::std_specs::hash::group_hash_axioms;

        if !self.binding.is_for_shared(
            chat_id,
            generation,
            shared_generation,
            SharedKind::Photos,
        ) {
            return false;
        }
        if !has_message(&self.shared, msg_id) {
            return false;
        }
        let _earlier = self.shared_paths.insert(msg_id, path);
        true
    }

    /// The file of a photo whose thumbnail is shown.
    pub fn shared_path(&self, msg_id: i32) -> (path: Option<&PathBuf>)
        ensures
            path == (if self.shared_paths@.contains_key(msg_id) {
                Some(&self.shared_paths@[msg_id])
            } else {
                None
            }),
    {
        broadcast use vstd::std_specs::hash::group_hash_axioms;

        self.shared_paths.get(&msg_id)
    }

    /// Shows whether a chat may notify, which is no wish of the user's.
    pub fn set_notifications(&mut self, enabled: bool)
        ensures
            final(self).profile == (Profile { notifications: enabled, ..old(self).profile }),
            *final(self) == (InfoPanel { profile: final(self).profile, ..*old(self) }),
    {
        self.profile.notifications = enabled;
    }

    /// The user switched the notifications. Returns what is asked for.
    pub fn notifications_switched(&mut self, enabled: bool) -> (asked: InfoAction)
        ensures
            asked == InfoAction::SetNotifications(enabled),
            final(self).profile == (Profile { notifications: enabled, ..old(self).profile }),
            *final(self) == (InfoPanel { profile: final(self).profile, ..*old(self) }),
    {
        self.profile.notifications = enabled;
        InfoAction::SetNotifications(enabled)
    }

    /// Returns whether the chat must be bound anew.
    pub fn set_show_avatars(&mut self, show: bool) -> (rebind: bool)
        ensures
            rebind == (old(self).show_avatars != show),
            final(self).profile == (Profile {
                photo_shown: if rebind { show } else { old(self).profile.photo_shown },
                ..old(self).profile
            }),
            *final(self) == (InfoPanel {
                show_avatars: show,
                profile: final(self).profile,
                ..*old(self)
            }),
    {
        if self.show_avatars == show {
            return false;
        }
        self.show_avatars = show;
        self.profile.photo_shown = show;
        true
    }

    pub fn set_layout(&mut self, layout: InfoLayout)
        ensures
            *final(self) == (InfoPanel { layout, ..*old(self) }),
    {
        self.layout = layout;
    }

    pub fn layout(&self) -> (layout: InfoLayout)
        ensures
            layout == self.layout,
    {
        self.layout
    }

    pub fn chat_id(&self) -> (id: Option<i64>)
        ensures
            id == self.binding.chat,
    {
        self.binding.chat
    }

    pub fn bind_generation(&self) -> (generation: u64)
        ensures
            generation == self.binding.generation,
    {
        self.binding.generation
    }

    pub fn shared_generation(&self) -> (generation: u64)
        ensures
            generation == self.binding.shared_generation,
    {
        self.binding.shared_generation
    }

    pub fn shared_kind(&self) -> (kind: SharedKind)
        ensures
            kind == self.binding.shared_kind,
    {
        self.binding.shared_kind
    }

    pub fn is_bound(&self, chat_id: i64) -> (bound: bool)
        ensures
            bound == (self.binding.chat == Some(chat_id)),
    {
        match self.binding.chat {
            Some(chat) => chat == chat_id,
            None => false,
        }
    }

    pub fn members_count(&self) -> (count: usize)
        ensures
            count == self.members@.len(),
    {
        self.members.len()
    }

    pub fn shared_count(&self) -> (count: usize)
        ensures
            count == self.shared@.len(),
    {
        self.shared.len()
    }

    pub fn shared_messages(&self) -> (messages: &Vec<Msg>)
        ensures
            *messages == self.shared,
    {
        &self.shared
    }

    pub fn members_retry_visible(&self) -> (visible: bool)
        ensures
            visible == self.members_line.retry,
    {
        self.members_line.retry
    }

    pub fn members_state_text(&self) -> (text: String)
        ensures
            text == self.members_line.text,
    {
        self.members_line.text.clone()
    }

    pub fn shared_retry_visible(&self) -> (visible: bool)
        ensures
            visible == self.shared_line.retry,
    {
        self.shared_line.retry
    }

    pub fn shared_state_text(&self) -> (text: String)
        ensures
            text == self.shared_line.text,
    {
        self.shared_line.text.clone()
    }

    pub fn info_retry_visible(&self) -> (visible: bool)
        ensures
            visible == self.info_line.retry,
    {
        self.info_line.retry
    }

    pub fn notifications_enabled(&self) -> (enabled: bool)
        ensures
            enabled == self.profile.notifications,
    {
        self.profile.notifications
    }
}

fn append_page(messages: &mut Vec<Msg>, page: Vec<Msg>)
    ensures
        final(messages)@ == joined(old(messages)@, page@, page@.len() as int),
{
    let ghost before = messages@;
    let ghost all = page@;
    for message in it: page
        invariant
            it.seq() == all,
            messages@ == joined(before, all, it.index() as int),
    {
        if !has_message(messages, message.id) {
            messages.push(message);
        }
    }
}

/// Once another chat is bound, or none, no answer to an earlier request is taken.
pub proof fn law_earlier_answers_are_dropped(before: Binding, after: Binding, chat_id: i64)
    requires
        after.generation == before.generation.wrapping_add(1),
    ensures
        !after.matches(chat_id, before.generation),
{
}

/// Once another tab is opened, no answer for an earlier tab is taken.
pub proof fn law_earlier_pages_are_dropped(
    before: Binding,
    after: Binding,
    chat_id: i64,
    generation: u64,
    kind: SharedKind,
)
    requires
        after.shared_generation == before.shared_generation.wrapping_add(1),
    ensures
        !after.shared_matches(chat_id, generation, before.shared_generation, kind),
{
}

} // verus!
