//! The Telegram data that the views show.

use vstd::prelude::*;

use crate::clock::Stamp;

verus! {

/// What a stretch of message text is formatted as.
#[derive(Debug, Clone, PartialEq, Eq)]
pub enum SpanKind {
    Bold,
    Italic,
    Underline,
    Strike,
    Code,
    /// A block of code, with the name of its language.
    Pre(String),
    Link(String),
    Mention(i64),
    Spoiler,
    Blockquote,
}

/// A formatted stretch of message text: the characters from `start` up to `end`.
#[derive(Debug, Clone, PartialEq, Eq)]
pub struct Span {
    pub start: usize,
    pub end: usize,
    pub kind: SpanKind,
}

/// What kind of conversation a chat is.
#[derive(Debug, Clone, Copy, PartialEq, Eq, Structural)]
pub enum ChatKind {
    User,
    Bot,
    Group,
    Channel,
    Saved,
}

/// What a message carries besides its text.
#[derive(Debug, Clone, Copy, PartialEq, Eq, Structural)]
pub enum MediaKind {
    Photo,
    Sticker,
    Document,
    Voice,
    Video,
    Gif,
    Audio,
    VideoNote,
    Unsupported,
}

/// When a user was last seen.
#[derive(Debug, Clone, Copy, PartialEq, Eq, Structural)]
pub enum Presence {
    Online,
    LastSeen(Stamp),
    Recently,
    LastWeek,
    LastMonth,
    LongAgo,
    Unknown,
}

/// For how long a chat is silenced.
#[derive(Debug, Clone, Copy, PartialEq, Eq, Structural)]
pub enum MuteMode {
    Hours(u32),
    Forever,
    Unmute,
}

/// How often a message got one reaction.
#[derive(Debug, PartialEq, Eq)]
pub struct Reaction {
    pub emoji: String,
    pub count: i32,
}

impl Clone for Reaction {
    fn clone(&self) -> (copy: Self)
        ensures
            copy == *self,
    {
        Reaction { emoji: self.emoji.clone(), count: self.count }
    }
}

/// A message.
#[derive(Debug, PartialEq, Eq)]
pub struct Msg {
    pub id: i32,
    pub chat_id: i64,
    pub chat_title: String,
    pub sender: String,
    pub sender_id: Option<i64>,
    pub text: String,
    /// The text with its formatting spelled out, where there is any.
    pub markdown: String,
    pub ts: Stamp,
    pub outgoing: bool,
    pub edited: bool,
    pub deleted: bool,
    pub media: Option<MediaKind>,
    pub doc_name: Option<String>,
    pub reply_to: Option<i32>,
    pub forwarded_from: Option<String>,
    pub views: Option<i32>,
    pub reactions: Vec<Reaction>,
    /// How long a recording is, in seconds.
    pub duration: Option<i32>,
    /// The address of the page that the message shows a preview of.
    pub webpage: Option<String>,
}

/// A copy of an optional text.
pub fn copy_option(text: &Option<String>) -> (copy: Option<String>)
    ensures
        copy == *text,
{
    match text {
        Some(found) => Some(found.clone()),
        None => None,
    }
}

/// A copy of a list of texts.
pub fn copy_texts(texts: &Vec<String>) -> (copy: Vec<String>)
    ensures
        copy@ == texts@,
{
    let mut copy: Vec<String> = Vec::new();
    let mut i: usize = 0;
    while i < texts.len()
        invariant
            i <= texts@.len(),
            copy@ == texts@.take(i as int),
        decreases texts@.len() - i,
    {
        copy.push(texts[i].clone());
        i += 1;
        assert(copy@ =~= texts@.take(i as int));
    }
    assert(texts@.take(i as int) =~= texts@);
    copy
}

impl Msg {
    /// Whether two messages hold the same.
    pub open spec fn same(self, other: Msg) -> bool {
        &&& self.reactions@ == other.reactions@
        &&& self == (Msg { reactions: self.reactions, ..other })
    }
}

impl Clone for Msg {
    fn clone(&self) -> (copy: Self)
        ensures
            copy.same(*self),
    {
        let mut reactions: Vec<Reaction> = Vec::new();
        let mut i: usize = 0;
        while i < self.reactions.len()
            invariant
                i <= self.reactions@.len(),
                reactions@ == self.reactions@.take(i as int),
            decreases self.reactions@.len() - i,
        {
            reactions.push(self.reactions[i].clone());
            i += 1;
            assert(reactions@ =~= self.reactions@.take(i as int));
        }
        assert(self.reactions@.take(i as int) =~= self.reactions@);
        Msg {
            id: self.id,
            chat_id: self.chat_id,
            chat_title: self.chat_title.clone(),
            sender: self.sender.clone(),
            sender_id: self.sender_id,
            text: self.text.clone(),
            markdown: self.markdown.clone(),
            ts: self.ts,
            outgoing: self.outgoing,
            edited: self.edited,
            deleted: self.deleted,
            media: self.media,
            doc_name: copy_option(&self.doc_name),
            reply_to: self.reply_to,
            forwarded_from: copy_option(&self.forwarded_from),
            views: self.views,
            reactions,
            duration: self.duration,
            webpage: copy_option(&self.webpage),
        }
    }
}

/// An earlier text of a message, and when it was replaced.
#[derive(Debug, PartialEq, Eq)]
pub struct MsgVersion {
    pub text: String,
    pub replaced_at: Stamp,
}

/// What the chat list knows of a chat.
#[derive(Debug, PartialEq, Eq)]
pub struct ChatSummary {
    pub id: i64,
    pub title: String,
    pub kind: ChatKind,
    pub username: String,
    pub last_message: String,
    pub last_time: Option<Stamp>,
    pub last_sender: String,
    pub last_outgoing: bool,
    pub last_msg_id: i32,
    pub unread: i32,
    /// Whether the user marked the chat as unread.
    pub unread_mark: bool,
    pub mentions: i32,
    pub muted: bool,
    pub pinned: bool,
    pub archived: bool,
    /// Whether the chat is divided into topics.
    pub forum: bool,
    pub has_photo: bool,
    pub draft: String,
    pub presence: Presence,
    /// The last own message that was read.
    pub read_outbox_max_id: i32,
}

impl Clone for ChatSummary {
    fn clone(&self) -> (copy: Self)
        ensures
            copy == *self,
    {
        ChatSummary {
            id: self.id,
            title: self.title.clone(),
            kind: self.kind,
            username: self.username.clone(),
            last_message: self.last_message.clone(),
            last_time: self.last_time,
            last_sender: self.last_sender.clone(),
            last_outgoing: self.last_outgoing,
            last_msg_id: self.last_msg_id,
            unread: self.unread,
            unread_mark: self.unread_mark,
            mentions: self.mentions,
            muted: self.muted,
            pinned: self.pinned,
            archived: self.archived,
            forum: self.forum,
            has_photo: self.has_photo,
            draft: self.draft.clone(),
            presence: self.presence,
            read_outbox_max_id: self.read_outbox_max_id,
        }
    }
}

impl ChatSummary {
    /// Whether nothing is known of the chat but its id, title, kind and preview.
    pub open spec fn blank(self) -> bool {
        &&& self.username@.len() == 0
        &&& self.last_time is None
        &&& self.last_sender@.len() == 0
        &&& !self.last_outgoing
        &&& self.last_msg_id == 0
        &&& self.unread == 0
        &&& !self.unread_mark
        &&& self.mentions == 0
        &&& !self.muted
        &&& !self.pinned
        &&& !self.archived
        &&& !self.forum
        &&& !self.has_photo
        &&& self.draft@.len() == 0
        &&& self.presence is Unknown
        &&& self.read_outbox_max_id == 0
    }

    /// A chat of which only this much is known.
    pub fn new(id: i64, title: String, kind: ChatKind, last_message: String) -> (summary: Self)
        ensures
            summary.id == id,
            summary.title == title,
            summary.kind == kind,
            summary.last_message == last_message,
            summary.blank(),
    {
        ChatSummary {
            id,
            title,
            kind,
            username: String::new(),
            last_message,
            last_time: None,
            last_sender: String::new(),
            last_outgoing: false,
            last_msg_id: 0,
            unread: 0,
            unread_mark: false,
            mentions: 0,
            muted: false,
            pinned: false,
            archived: false,
            forum: false,
            has_photo: false,
            draft: String::new(),
            presence: Presence::Unknown,
            read_outbox_max_id: 0,
        }
    }
}

/// What a chat's profile says.
#[derive(Debug, PartialEq, Eq)]
pub struct ChatInfo {
    pub id: i64,
    pub title: String,
    pub kind: ChatKind,
    pub username: String,
    pub phone: String,
    pub about: String,
    pub members: Option<i32>,
    pub presence: Presence,
    pub muted: bool,
    pub has_photo: bool,
}

/// What a member may do in a group.
#[derive(Debug, Clone, Copy, PartialEq, Eq, Structural)]
pub enum MemberRole {
    Creator,
    Admin,
    Member,
}

/// A member of a group.
#[derive(Debug, PartialEq, Eq)]
pub struct Member {
    pub user_id: i64,
    pub name: String,
    pub presence: Presence,
    pub role: MemberRole,
}

/// What a chat's members shared.
#[derive(Debug, Clone, Copy, PartialEq, Eq, Structural)]
pub enum SharedKind {
    Photos,
    Files,
    Links,
    Voice,
    Music,
}

/// How far a call is.
#[derive(Debug, Clone, Copy, PartialEq, Eq, Structural)]
pub enum CallPhase {
    Incoming,
    Requesting,
    Exchanging,
    Connecting,
    Active,
    Ended,
}

/// Why a call ended.
#[derive(Debug, Clone, Copy, PartialEq, Eq, Structural)]
pub enum CallEndReason {
    Hangup,
    Declined,
    Missed,
    Failed,
}

/// A call.
#[derive(Debug, PartialEq, Eq)]
pub struct CallInfo {
    /// Zero where the server has not given one yet.
    pub id: i64,
    pub peer_id: i64,
    pub peer_name: String,
    pub phase: CallPhase,
    /// What both sides compare to know that nobody listens.
    pub emojis: String,
    pub muted: bool,
    pub connected_at: Option<Stamp>,
    pub end_reason: Option<CallEndReason>,
}

impl Clone for CallInfo {
    fn clone(&self) -> (copy: Self)
        ensures
            copy == *self,
    {
        CallInfo {
            id: self.id,
            peer_id: self.peer_id,
            peer_name: self.peer_name.clone(),
            phase: self.phase,
            emojis: self.emojis.clone(),
            muted: self.muted,
            connected_at: self.connected_at,
            end_reason: self.end_reason,
        }
    }
}

/// What is missing before the account can be used.
#[derive(Debug, Clone, Copy, PartialEq, Eq, Structural)]
pub enum AuthState {
    NeedCredentials,
    NeedPhone,
    NeedCode,
    NeedPassword,
    Ready,
}

/// Someone in the address book.
#[derive(Debug, PartialEq, Eq)]
pub struct Contact {
    pub user_id: i64,
    pub name: String,
    pub username: String,
    pub phone: String,
    pub presence: Presence,
    pub has_photo: bool,
}

impl Clone for Contact {
    fn clone(&self) -> (copy: Self)
        ensures
            copy == *self,
    {
        Contact {
            user_id: self.user_id,
            name: self.name.clone(),
            username: self.username.clone(),
            phone: self.phone.clone(),
            presence: self.presence,
            has_photo: self.has_photo,
        }
    }
}

/// A command that a bot understands.
#[derive(Debug, PartialEq, Eq)]
pub struct BotCommand {
    pub command: String,
    pub description: String,
}

/// What a button below a bot's message does.
#[derive(Debug, PartialEq, Eq)]
pub enum ButtonKind {
    /// Tells the bot.
    Callback(Vec<u8>),
    Url(String),
    /// Puts a query to the bot into the composer.
    SwitchInline { query: String, same_chat: bool },
    Other,
}

/// A button below a bot's message.
#[derive(Debug, PartialEq, Eq)]
pub struct KeyboardButton {
    pub text: String,
    pub kind: ButtonKind,
}

/// A place that moves while it is shared.
#[derive(Debug, Clone, Copy, PartialEq, Eq, Structural)]
pub struct LiveLocation {
    pub stopped: bool,
    pub expires: Stamp,
    pub last_update: Stamp,
}

/// What is said of a place besides where it is.
#[derive(Debug, PartialEq, Eq)]
pub struct Location {
    pub title: String,
    pub address: String,
    pub live: Option<LiveLocation>,
}

/// A contact that was sent in a message.
#[derive(Debug, PartialEq, Eq)]
pub struct SharedContact {
    pub first_name: String,
    pub last_name: String,
    pub phone: String,
    pub user_id: Option<i64>,
}

/// A die that was thrown in a message. Its value is zero until it lies still.
#[derive(Debug, PartialEq, Eq)]
pub struct Dice {
    pub emoji: String,
    pub value: i32,
}

/// A folder of chats.
#[derive(Debug, PartialEq, Eq)]
pub struct Folder {
    pub id: i32,
    pub title: String,
    pub chats: Vec<i64>,
}

} // verus!
