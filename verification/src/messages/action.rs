//! What can be asked for from the open chat.

use vstd::prelude::*;

use crate::clock::Stamp;
use crate::menus::ChatAction;
use crate::messages::query::ContextItem;

verus! {

/// What can be asked for from the open chat.
#[derive(Debug, PartialEq, Eq)]
pub enum MessageAction {
    Submit,
    Mic,
    Attach,
    DraftChanged,
    DraftRetry,
    Header(ChatAction),
    /// A file was dropped on the chat, given by its address.
    DropFile(String),
    Reply(i32),
    Edit(i32),
    EditHistory(i32),
    Delete(i32),
    Media(i32),
    Paginate,
    CancelMode,
    CopyMessageId(i32),
    CopyUserId(i32),
    JumpToMessage(i32),
    JumpToDate(Stamp),
    JumpToLatest,
    DraftReply(i32),
    Translate(i32),
    Summarize(i32),
    Transcribe(i32),
    UpdateLive(i32),
    StopLive(i32),
    OpenInBrowser(String),
    OpenLink(String),
    OpenMention(i64),
    AddContact(i32),
    PressButton { msg_id: i32, data: Vec<u8> },
    SwitchInline { query: String, same_chat: bool, bot_username: String },
    Start,
}

impl ContextItem {
    /// What an entry of a message's menu asks for. Copying the text asks for nothing.
    pub fn action(self, msg_id: i32) -> (action: Option<MessageAction>)
        ensures
            action == (match self {
                ContextItem::Copy => None::<MessageAction>,
                ContextItem::CopyMessageId => Some(MessageAction::CopyMessageId(msg_id)),
                ContextItem::CopyUserId => Some(MessageAction::CopyUserId(msg_id)),
                ContextItem::EditHistory => Some(MessageAction::EditHistory(msg_id)),
                ContextItem::DraftReply => Some(MessageAction::DraftReply(msg_id)),
                ContextItem::Translate => Some(MessageAction::Translate(msg_id)),
                ContextItem::Summarize => Some(MessageAction::Summarize(msg_id)),
                ContextItem::Reply => Some(MessageAction::Reply(msg_id)),
                ContextItem::Edit => Some(MessageAction::Edit(msg_id)),
                ContextItem::Delete => Some(MessageAction::Delete(msg_id)),
            }),
    {
        match self {
            ContextItem::Copy => None,
            ContextItem::CopyMessageId => Some(MessageAction::CopyMessageId(msg_id)),
            ContextItem::CopyUserId => Some(MessageAction::CopyUserId(msg_id)),
            ContextItem::EditHistory => Some(MessageAction::EditHistory(msg_id)),
            ContextItem::DraftReply => Some(MessageAction::DraftReply(msg_id)),
            ContextItem::Translate => Some(MessageAction::Translate(msg_id)),
            ContextItem::Summarize => Some(MessageAction::Summarize(msg_id)),
            ContextItem::Reply => Some(MessageAction::Reply(msg_id)),
            ContextItem::Edit => Some(MessageAction::Edit(msg_id)),
            ContextItem::Delete => Some(MessageAction::Delete(msg_id)),
        }
    }
}

} // verus!
