//! Replies, edits and drafts.

use vstd::prelude::*;

use crate::messages::composer::{end_of, reply_label, reply_text, Composer, EditLabel};
use crate::messages::view::{MessagesView, Notice};
use crate::text::{same_text, starts_with};
use crate::tg::Msg;

verus! {

/// Whether a message can be edited: an own one that is text alone.
pub open spec fn editable(msg: Msg) -> bool {
    msg.outgoing && msg.media is None && msg.text@.len() > 0
}

/// What the composer shows of a message that is edited.
pub open spec fn edit_source(msg: Msg) -> Seq<char> {
    if msg.markdown@.len() == 0 {
        msg.text@
    } else {
        msg.markdown@
    }
}

/// Where the cursor is put in a text.
pub open spec fn clamped_cursor(cursor: int, text: Seq<char>) -> int {
    if cursor < 0 {
        0
    } else if cursor > end_of(text) {
        end_of(text)
    } else {
        cursor
    }
}

/// The composer after a draft was brought back.
pub open spec fn restored(
    composer: Composer,
    text: Seq<char>,
    reply_to: Option<i32>,
    cursor: int,
) -> bool {
    &&& composer.text@ == text
    &&& composer.cursor == clamped_cursor(cursor, text)
    &&& composer.edit is None
    &&& !composer.edit_bar
    &&& !composer.ai_draft
    &&& composer.edit_label == EditLabel::Editing
    &&& composer.reply_to == reply_to
    &&& composer.reply_bar == (reply_to is Some)
}

impl Composer {
    /// Becomes a reply to a message, where there is one. An edit is left first.
    fn begin_reply(&mut self, msg: Option<&Msg>)
        ensures
            match msg {
                Some(found) => final(self).reply_to == Some(found.id) && final(self).reply_bar
                    && final(self).reply_label@ == reply_text(found.sender@, found.text@),
                None => final(self).reply_to == old(self).reply_to && final(self).reply_bar
                    == old(self).reply_bar && final(self).reply_label == old(self).reply_label,
            },
            final(self).text@ == (match old(self).edit {
                Some(edit) => edit.draft@,
                None => old(self).text@,
            }),
            final(self).cursor == (match old(self).edit {
                Some(edit) => end_of(edit.draft@),
                None => old(self).cursor as int,
            }),
            final(self).edit is None,
            final(self).edit_bar == (old(self).edit is None && old(self).edit_bar),
            final(self).edit_label == old(self).edit_label,
            final(self).ai_draft == old(self).ai_draft,
    {
        if self.edit.is_some() {
            self.cancel_edit();
        }
        if let Some(found) = msg {
            let label = reply_label(&found.sender, &found.text);
            self.show_reply(found.id, label);
        }
    }
}

impl MessagesView {
    /// Replies to a message of the list. An edit is left.
    pub fn begin_reply(&mut self, msg_id: i32)
        requires
            old(self).well_formed(),
        ensures
            final(self).well_formed(),
            old(self).knows(msg_id) ==> {
                &&& final(self).composer.reply_to == Some(msg_id)
                &&& final(self).composer.reply_bar
                &&& final(self).composer.reply_label@ == reply_text(
                    old(self).entry(msg_id).msg.sender@,
                    old(self).entry(msg_id).msg.text@,
                )
            },
            !old(self).knows(msg_id) ==> {
                &&& final(self).composer.reply_to == old(self).composer.reply_to
                &&& final(self).composer.reply_bar == old(self).composer.reply_bar
                &&& final(self).composer.reply_label == old(self).composer.reply_label
            },
            final(self).composer.text@ == (match old(self).composer.edit {
                Some(edit) => edit.draft@,
                None => old(self).composer.text@,
            }),
            final(self).composer.cursor == (match old(self).composer.edit {
                Some(edit) => end_of(edit.draft@),
                None => old(self).composer.cursor as int,
            }),
            final(self).composer.edit is None,
            final(self).composer.edit_bar == (old(self).composer.edit is None
                && old(self).composer.edit_bar),
            final(self).composer.edit_label == old(self).composer.edit_label,
            final(self).composer.ai_draft == old(self).composer.ai_draft,
            *final(self) == (MessagesView { composer: final(self).composer, ..*old(self) }),
    {
        let found = match self.store.position(msg_id) {
            Some(at) => Some(&self.store.entries[at].msg),
            None => None,
        };
        self.composer.begin_reply(found);
    }

    /// Edits a message of the list, where it can be edited. The text that stands in
    /// the composer is kept for later.
    pub fn begin_edit(&mut self, msg_id: i32)
        requires
            old(self).well_formed(),
        ensures
            final(self).well_formed(),
            if old(self).knows(msg_id) && editable(old(self).entry(msg_id).msg) {
                &&& final(self).composer.text@ == edit_source(old(self).entry(msg_id).msg)
                &&& final(self).composer.cursor == end_of(edit_source(old(self).entry(msg_id).msg))
                &&& final(self).composer.edit matches Some(edit) && edit.msg_id == msg_id
                    && edit.draft@ == (match old(self).composer.edit {
                    Some(previous) => previous.draft@,
                    None => old(self).composer.text@,
                })
                &&& final(self).composer == (Composer {
                    text: final(self).composer.text,
                    cursor: final(self).composer.cursor,
                    reply_to: None,
                    reply_bar: false,
                    edit: final(self).composer.edit,
                    edit_label: EditLabel::Editing,
                    edit_bar: true,
                    ai_draft: false,
                    ..old(self).composer
                })
            } else {
                final(self).composer == old(self).composer
            },
            *final(self) == (MessagesView { composer: final(self).composer, ..*old(self) }),
    {
        let source = match self.store.position(msg_id) {
            Some(at) => {
                let msg = &self.store.entries[at].msg;
                if !msg.outgoing || msg.media.is_some() || msg.text.as_str().is_empty() {
                    None
                } else if msg.markdown.as_str().is_empty() {
                    Some(msg.text.as_str())
                } else {
                    Some(msg.markdown.as_str())
                }
            },
            None => None,
        };
        if let Some(text) = source {
            self.composer.begin_edit(msg_id, text);
        }
    }

    /// Leaves the innermost mode of the composer.
    pub fn cancel_mode(&mut self) -> (cancelled: bool)
        ensures
            cancelled == (old(self).composer.edit is Some || old(self).composer.ai_draft
                || old(self).composer.reply_to is Some),
            !cancelled ==> final(self).composer == old(self).composer,
            old(self).composer.edit is Some ==> final(self).composer.left_edit(old(self).composer),
            old(self).composer.edit is None && old(self).composer.ai_draft ==> {
                &&& final(self).composer.text@.len() == 0
                &&& final(self).composer == (Composer {
                    text: final(self).composer.text,
                    cursor: 0,
                    ai_draft: false,
                    edit_bar: false,
                    edit_label: EditLabel::Editing,
                    ..old(self).composer
                })
            },
            old(self).composer.edit is None && !old(self).composer.ai_draft && cancelled
                ==> final(self).composer == old(self).composer.without_reply(),
            *final(self) == (MessagesView { composer: final(self).composer, ..*old(self) }),
    {
        self.composer.cancel_mode()
    }

    /// Leaves all modes of the composer.
    pub fn cancel_all_modes(&mut self)
        ensures
            final(self).composer.text@ == old(self).composer.plain_text(),
            final(self).composer == (Composer {
                text: final(self).composer.text,
                cursor: final(self).composer.cursor,
                reply_to: None,
                reply_bar: false,
                edit: None,
                edit_label: EditLabel::Editing,
                edit_bar: false,
                ai_draft: false,
                ..old(self).composer
            }),
            final(self).composer.cursor == (if old(self).composer.ai_draft
                || old(self).composer.edit is Some {
                end_of(old(self).composer.plain_text())
            } else {
                old(self).composer.cursor as int
            }),
            *final(self) == (MessagesView { composer: final(self).composer, ..*old(self) }),
    {
        self.composer.cancel_all_modes();
    }

    /// A file is attached: it is no reply.
    pub fn prepare_attachment(&mut self)
        ensures
            final(self).composer == old(self).composer.without_reply(),
            *final(self) == (MessagesView { composer: final(self).composer, ..*old(self) }),
    {
        self.composer.cancel_reply();
    }

    pub fn show_ai_draft(&mut self, text: &str)
        ensures
            final(self).composer.text@ == text@,
            final(self).composer.cursor == end_of(text@),
            final(self).composer == (Composer {
                text: final(self).composer.text,
                cursor: final(self).composer.cursor,
                reply_to: None,
                reply_bar: false,
                edit: None,
                edit_label: EditLabel::AiDraft,
                edit_bar: true,
                ai_draft: true,
                ..old(self).composer
            }),
            *final(self) == (MessagesView { composer: final(self).composer, ..*old(self) }),
    {
        self.composer.show_ai_draft(text);
    }

    pub fn ai_draft_visible(&self) -> (visible: bool)
        ensures
            visible == (self.composer.ai_draft && self.composer.edit_bar),
    {
        self.composer.ai_draft && self.composer.edit_bar
    }

    /// A text was sent: the composer is emptied, unless it holds another text by now
    /// or another chat was opened.
    pub fn complete_text_operation(&mut self, snapshot_text: &str, epoch_is_current: bool)
        ensures
            if epoch_is_current && old(self).composer.text@ == snapshot_text@ {
                &&& final(self).composer.text@.len() == 0
                &&& final(self).composer == (Composer {
                    text: final(self).composer.text,
                    cursor: 0,
                    reply_to: None,
                    reply_bar: false,
                    edit: None,
                    edit_label: EditLabel::Editing,
                    edit_bar: false,
                    ai_draft: false,
                    ..old(self).composer
                })
            } else {
                final(self).composer == old(self).composer
            },
            *final(self) == (MessagesView { composer: final(self).composer, ..*old(self) }),
    {
        if epoch_is_current && same_text(&self.composer.text, snapshot_text) {
            self.composer.reset();
        }
    }

    pub fn composer_text(&self) -> (text: String)
        ensures
            text == self.composer.text,
    {
        self.composer.text.clone()
    }

    pub fn set_composer_text(&mut self, text: &str)
        ensures
            final(self).composer.has_text(old(self).composer, text@),
            *final(self) == (MessagesView { composer: final(self).composer, ..*old(self) }),
    {
        self.composer.set_text(text);
    }

    /// The user wrote something.
    pub fn composer_edited(&mut self, text: String, cursor: i32)
        ensures
            final(self).composer == (Composer { text, cursor, ..old(self).composer }),
            *final(self) == (MessagesView { composer: final(self).composer, ..*old(self) }),
    {
        self.composer.text = text;
        self.composer.cursor = cursor;
    }

    /// Whether the send button records a voice message: it does while nothing is
    /// written.
    pub fn sends_voice(&self) -> (answer: bool)
        ensures
            answer == (self.composer.text@.len() == 0),
    {
        self.composer.text.as_str().is_empty()
    }

    /// What the Return key does: with Shift it belongs to the text, and otherwise
    /// it sends the text unless another one is being sent. Says whether the key is
    /// used up, and whether the text is to be sent.
    pub fn return_pressed(&self, shift: bool) -> (outcome: (bool, bool))
        ensures
            outcome.0 == !shift,
            outcome.1 == (!shift && (self.virtual_mode || !self.busy)),
    {
        (!shift, !shift && (self.virtual_mode || !self.busy))
    }

    /// Whether a file can be dropped on the composer.
    pub fn accepts_drop(&self) -> (answer: bool)
        ensures
            answer == !self.busy,
    {
        !self.busy
    }

    pub fn composer_cursor(&self) -> (cursor: i32)
        ensures
            cursor == self.composer.cursor,
    {
        self.composer.cursor
    }

    pub fn is_editing(&self) -> (answer: bool)
        ensures
            answer == (self.composer.edit is Some),
    {
        self.composer.edit.is_some()
    }

    pub fn reply_to(&self) -> (id: Option<i32>)
        ensures
            id == self.composer.reply_to,
    {
        self.composer.reply_to
    }

    pub fn edit_id(&self) -> (id: Option<i32>)
        ensures
            id == (match self.composer.edit {
                Some(edit) => Some(edit.msg_id),
                None => None,
            }),
    {
        match &self.composer.edit {
            Some(edit) => Some(edit.msg_id),
            None => None,
        }
    }

    /// What is kept of the composer when another chat is opened: an edit is left
    /// first.
    pub fn draft_snapshot_for_switch(&mut self) -> (draft: (String, Option<i32>, i32))
        ensures
            if old(self).composer.edit is Some {
                final(self).composer.left_edit(old(self).composer)
            } else {
                final(self).composer == old(self).composer
            },
            draft.0 == final(self).composer.text,
            draft.1 == old(self).composer.reply_to,
            draft.2 == final(self).composer.cursor,
            *final(self) == (MessagesView { composer: final(self).composer, ..*old(self) }),
    {
        if self.composer.edit.is_some() {
            self.composer.cancel_edit();
        }
        (self.composer.text.clone(), self.composer.reply_to, self.composer.cursor)
    }

    /// Brings back what was kept of the composer.
    pub fn restore_draft(&mut self, text: &str, reply_to: Option<i32>, cursor: i32)
        requires
            old(self).well_formed(),
        ensures
            final(self).well_formed(),
            restored(final(self).composer, text@, reply_to, cursor as int),
            match reply_to {
                Some(id) => final(self).composer.reply_label@ == (if old(self).knows(id) {
                    reply_text(old(self).entry(id).msg.sender@, old(self).entry(id).msg.text@)
                } else {
                    "Reply to message"@
                }),
                None => final(self).composer.reply_label == old(self).composer.reply_label,
            },
            *final(self) == (MessagesView { composer: final(self).composer, ..*old(self) }),
    {
        self.composer.cancel_all_modes();
        self.composer.set_text(text);
        self.composer.place_cursor(cursor);
        if let Some(id) = reply_to {
            let label = match self.store.position(id) {
                Some(at) => {
                    let msg = &self.store.entries[at].msg;
                    reply_label(&msg.sender, &msg.text)
                },
                None => "Reply to message".to_owned(),
            };
            self.composer.show_reply(id, label);
        }
    }

    pub fn show_draft_error(&mut self, error: &str)
        ensures
            final(self).notice.error@ == "draft not saved — retry: "@ + error@,
            final(self).notice.visible,
            final(self).notice.draft_retry,
            *final(self) == (MessagesView { notice: final(self).notice, ..*old(self) }),
    {
        let mut text = "draft not saved — retry: ".to_owned();
        text.push_str(error);
        self.notice = Notice { error: text, visible: true, draft_retry: true };
    }

    /// The draft was saved after all: only an error about it goes away.
    pub fn clear_draft_error(&mut self)
        ensures
            if crate::text::stands_at(old(self).notice.error@, "draft not saved"@, 0) {
                final(self).notice.clear()
            } else {
                final(self).notice == (Notice { draft_retry: false, ..old(self).notice })
            },
            *final(self) == (MessagesView { notice: final(self).notice, ..*old(self) }),
    {
        if starts_with(&self.notice.error, "draft not saved") {
            self.clear_error();
        } else {
            self.notice.draft_retry = false;
        }
    }

    pub fn clear_error(&mut self)
        ensures
            final(self).notice.clear(),
            *final(self) == (MessagesView { notice: final(self).notice, ..*old(self) }),
    {
        self.notice = Notice { error: String::new(), visible: false, draft_retry: false };
    }

    /// While a text is being sent nothing else can be written, except to the chats
    /// that are not Telegram's.
    pub fn set_busy(&mut self, busy: bool)
        ensures
            *final(self) == (MessagesView {
                busy,
                composer_enabled: old(self).virtual_mode || !busy,
                drop_enabled: old(self).virtual_mode || !busy,
                ..*old(self)
            }),
    {
        self.busy = busy;
        self.composer_enabled = self.virtual_mode || !busy;
        self.drop_enabled = self.virtual_mode || !busy;
    }

    pub fn is_busy(&self) -> (busy: bool)
        ensures
            busy == self.busy,
    {
        self.busy
    }
}

/// What was kept of a composer that edits nothing comes back as it was: its text,
/// its cursor and what it replies to.
pub proof fn law_draft_comes_back(before: Composer, after: Composer)
    requires
        0 <= before.cursor <= end_of(before.text@),
        restored(after, before.text@, before.reply_to, before.cursor as int),
    ensures
        after.text@ == before.text@,
        after.cursor == before.cursor,
        after.reply_to == before.reply_to,
{
}

} // verus!
