//! The composer: the text that is being written, and what it will become (a
//! reply, an edit of an earlier message, or a draft that the assistant proposed).

use vstd::prelude::*;

use crate::text::{characters, text_between};

verus! {

/// An edit of a message, with the text that stood in the composer before.
pub struct EditMode {
    pub msg_id: i32,
    pub draft: String,
}

/// What the bar above the composer says.
#[derive(Debug, Clone, Copy, PartialEq, Eq, Structural)]
pub enum EditLabel {
    Editing,
    AiDraft,
}

impl EditLabel {
    pub open spec fn spec_text(self) -> Seq<char> {
        match self {
            EditLabel::Editing => "Editing message"@,
            EditLabel::AiDraft => "AI draft — Enter sends, Esc discards"@,
        }
    }

    pub fn text(self) -> (text: &'static str)
        ensures
            text@ == self.spec_text(),
    {
        match self {
            EditLabel::Editing => "Editing message",
            EditLabel::AiDraft => "AI draft — Enter sends, Esc discards",
        }
    }
}

/// The composer.
pub struct Composer {
    pub text: String,
    /// How many characters stand before the cursor.
    pub cursor: i32,
    pub reply_to: Option<i32>,
    pub reply_label: String,
    pub reply_bar: bool,
    pub edit: Option<EditMode>,
    pub edit_label: EditLabel,
    pub edit_bar: bool,
    pub ai_draft: bool,
}

/// The beginning of a text, with an ellipsis where it was cut.
pub open spec fn shortened(text: Seq<char>, max_chars: int) -> Seq<char> {
    if text.len() > max_chars {
        text.take(max_chars) + "…"@
    } else {
        text
    }
}

/// The beginning of a text, with an ellipsis where it was cut.
pub fn snippet(text: &str, max_chars: usize) -> (short: String)
    ensures
        short@ == shortened(text@, max_chars as int),
{
    let chars = characters(text);
    if chars.len() > max_chars {
        let mut short = text_between(&chars, 0, max_chars);
        short.push_str("…");
        assert(chars@.subrange(0, max_chars as int) =~= text@.take(max_chars as int));
        short
    } else {
        text.to_owned()
    }
}

/// The name of a sender, where it is known.
pub open spec fn known_name(sender: Seq<char>) -> Seq<char> {
    if sender.len() == 0 {
        "Unknown"@
    } else {
        sender
    }
}

/// What the reply bar says about a message.
pub open spec fn reply_text(sender: Seq<char>, text: Seq<char>) -> Seq<char> {
    "Reply to "@ + known_name(sender) + ": "@ + shortened(text, 60)
}

/// What the reply bar says about a message.
pub fn reply_label(sender: &str, text: &str) -> (label: String)
    ensures
        label@ == reply_text(sender@, text@),
{
    let mut label = String::new();
    label.push_str("Reply to ");
    if sender.is_empty() {
        label.push_str("Unknown");
    } else {
        label.push_str(sender);
    }
    label.push_str(": ");
    let short = snippet(text, 60);
    label.push_str(&short);
    assert(label@ =~= reply_text(sender@, text@));
    label
}

/// Where the cursor stands behind a text.
pub open spec fn end_of(text: Seq<char>) -> int {
    if text.len() > i32::MAX {
        i32::MAX as int
    } else {
        text.len() as int
    }
}

fn char_count(text: &str) -> (count: i32)
    ensures
        count == end_of(text@),
{
    let chars = characters(text);
    if chars.len() > 0x7fff_ffff {
        i32::MAX
    } else {
        chars.len() as i32
    }
}

impl Composer {
    /// Whether two composers hold the same: the texts by their characters.
    pub open spec fn same(self, other: Composer) -> bool {
        &&& self.text@ == other.text@
        &&& self.reply_label@ == other.reply_label@
        &&& self == (Composer { text: self.text, reply_label: self.reply_label, ..other })
    }

    /// Nothing was written, and neither a reply nor an edit was begun.
    pub open spec fn untouched(self) -> bool {
        &&& self.text@.len() == 0
        &&& self.reply_label@.len() == 0
        &&& self == (Composer {
            text: self.text,
            cursor: 0,
            reply_to: None,
            reply_label: self.reply_label,
            reply_bar: false,
            edit: None,
            edit_label: EditLabel::Editing,
            edit_bar: false,
            ai_draft: false,
        })
    }

    pub fn new() -> (composer: Composer)
        ensures
            composer.untouched(),
    {
        Composer {
            text: String::new(),
            cursor: 0,
            reply_to: None,
            reply_label: String::new(),
            reply_bar: false,
            edit: None,
            edit_label: EditLabel::Editing,
            edit_bar: false,
            ai_draft: false,
        }
    }

    /// The composer with another text, and the cursor behind it.
    pub open spec fn has_text(self, before: Composer, text: Seq<char>) -> bool {
        &&& self.text@ == text
        &&& self.cursor == end_of(text)
        &&& self == (Composer { text: self.text, cursor: self.cursor, ..before })
    }

    pub fn set_text(&mut self, text: &str)
        ensures
            final(self).has_text(*old(self), text@),
    {
        self.text = text.to_owned();
        self.cursor = char_count(text);
    }

    /// No reply any more.
    pub open spec fn without_reply(self) -> Composer {
        Composer { reply_to: None, reply_bar: false, ..self }
    }

    pub fn cancel_reply(&mut self)
        ensures
            *final(self) == old(self).without_reply(),
    {
        self.reply_to = None;
        self.reply_bar = false;
    }

    /// What leaving an edit makes of the composer: the text that stood there before
    /// comes back.
    pub open spec fn left_edit(self, before: Composer) -> bool {
        match before.edit {
            Some(edit) => {
                &&& self.text@ == edit.draft@
                &&& self.cursor == end_of(edit.draft@)
                &&& self == (Composer {
                    text: self.text,
                    cursor: self.cursor,
                    edit: None,
                    edit_bar: false,
                    ..before
                })
            },
            None => self == (Composer { edit_bar: false, ..before }),
        }
    }

    pub fn cancel_edit(&mut self)
        ensures
            final(self).left_edit(*old(self)),
    {
        match self.edit.take() {
            Some(edit) => {
                self.set_text(&edit.draft);
            },
            None => {},
        }
        self.edit_bar = false;
    }

    /// Becomes a reply to a message.
    pub fn show_reply(&mut self, msg_id: i32, label: String)
        ensures
            *final(self) == (Composer {
                reply_to: Some(msg_id),
                reply_label: label,
                reply_bar: true,
                ..*old(self)
            }),
    {
        self.reply_to = Some(msg_id);
        self.reply_label = label;
        self.reply_bar = true;
    }

    /// Becomes an edit of a message whose text is `text`.
    pub fn begin_edit(&mut self, msg_id: i32, text: &str)
        ensures
            final(self).text@ == text@,
            final(self).cursor == end_of(text@),
            final(self).edit matches Some(edit) && edit.msg_id == msg_id && edit.draft@ == (
            match old(self).edit {
                Some(previous) => previous.draft@,
                None => old(self).text@,
            }),
            *final(self) == (Composer {
                text: final(self).text,
                cursor: final(self).cursor,
                reply_to: None,
                reply_bar: false,
                edit: final(self).edit,
                edit_label: EditLabel::Editing,
                edit_bar: true,
                ai_draft: false,
                ..*old(self)
            }),
    {
        self.cancel_reply();
        if self.edit.is_some() {
            self.cancel_edit();
        }
        let draft = self.text.clone();
        self.edit = Some(EditMode { msg_id, draft });
        self.ai_draft = false;
        self.edit_label = EditLabel::Editing;
        self.set_text(text);
        self.edit_bar = true;
    }

    /// Shows a text that the assistant proposed.
    pub fn show_ai_draft(&mut self, text: &str)
        ensures
            final(self).text@ == text@,
            final(self).cursor == end_of(text@),
            *final(self) == (Composer {
                text: final(self).text,
                cursor: final(self).cursor,
                reply_to: None,
                reply_bar: false,
                edit: None,
                edit_label: EditLabel::AiDraft,
                edit_bar: true,
                ai_draft: true,
                ..*old(self)
            }),
    {
        self.cancel_reply();
        self.cancel_edit();
        self.set_text(text);
        self.ai_draft = true;
        self.edit_label = EditLabel::AiDraft;
        self.edit_bar = true;
    }

    /// Leaves the innermost mode: an edit, a proposed draft, or a reply. Says
    /// whether there was one.
    pub fn cancel_mode(&mut self) -> (cancelled: bool)
        ensures
            cancelled == (old(self).edit is Some || old(self).ai_draft || old(self).reply_to is Some),
            if old(self).edit is Some {
                final(self).left_edit(*old(self))
            } else if old(self).ai_draft {
                &&& final(self).text@.len() == 0
                &&& *final(self) == (Composer {
                    text: final(self).text,
                    cursor: 0,
                    ai_draft: false,
                    edit_bar: false,
                    edit_label: EditLabel::Editing,
                    ..*old(self)
                })
            } else if old(self).reply_to is Some {
                *final(self) == old(self).without_reply()
            } else {
                *final(self) == *old(self)
            },
    {
        if self.edit.is_some() {
            self.cancel_edit();
            true
        } else if self.ai_draft {
            self.ai_draft = false;
            proof {
                reveal_strlit("");
            }
            self.set_text("");
            self.edit_bar = false;
            self.edit_label = EditLabel::Editing;
            true
        } else if self.reply_to.is_some() {
            self.cancel_reply();
            true
        } else {
            false
        }
    }

    /// What stands in the composer once all modes are left.
    pub open spec fn plain_text(self) -> Seq<char> {
        if self.ai_draft {
            Seq::empty()
        } else {
            match self.edit {
                Some(edit) => edit.draft@,
                None => self.text@,
            }
        }
    }

    /// Leaves all modes.
    pub fn cancel_all_modes(&mut self)
        ensures
            final(self).text@ == old(self).plain_text(),
            final(self).cursor == (if old(self).ai_draft || old(self).edit is Some {
                end_of(old(self).plain_text())
            } else {
                old(self).cursor as int
            }),
            *final(self) == (Composer {
                text: final(self).text,
                cursor: final(self).cursor,
                reply_to: None,
                reply_bar: false,
                edit: None,
                edit_label: EditLabel::Editing,
                edit_bar: false,
                ai_draft: false,
                ..*old(self)
            }),
    {
        self.cancel_edit();
        if self.ai_draft {
            self.ai_draft = false;
            proof {
                reveal_strlit("");
            }
            self.set_text("");
            assert(self.text@ =~= Seq::<char>::empty());
        }
        self.edit_label = EditLabel::Editing;
        self.cancel_reply();
    }

    /// Forgets everything that was being written.
    pub fn reset(&mut self)
        ensures
            final(self).text@.len() == 0,
            *final(self) == (Composer {
                text: final(self).text,
                cursor: 0,
                reply_to: None,
                reply_bar: false,
                edit: None,
                edit_label: EditLabel::Editing,
                edit_bar: false,
                ai_draft: false,
                ..*old(self)
            }),
    {
        self.edit = None;
        self.ai_draft = false;
        self.edit_bar = false;
        self.edit_label = EditLabel::Editing;
        self.cancel_reply();
        proof {
            reveal_strlit("");
        }
        self.set_text("");
    }

    /// Puts the cursor behind `cursor` characters, as far as there are as many.
    pub fn place_cursor(&mut self, cursor: i32)
        ensures
            final(self).cursor == (if cursor < 0 {
                0
            } else if cursor > end_of(old(self).text@) {
                end_of(old(self).text@)
            } else {
                cursor as int
            }),
            *final(self) == (Composer { cursor: final(self).cursor, ..*old(self) }),
    {
        let end = char_count(&self.text);
        self.cursor = if cursor < 0 { 0 } else if cursor > end { end } else { cursor };
    }
}

/// An edit that is cancelled leaves the text as it was before the edit began.
pub proof fn law_cancelled_edit_restores_text(before: Composer, editing: Composer, after: Composer)
    requires
        before.edit is None,
        editing.edit matches Some(edit) && edit.draft@ == before.text@,
        after.left_edit(editing),
    ensures
        after.text@ == before.text@,
        after.edit is None,
        !after.edit_bar,
{
}

} // verus!
