//! Bots: the buttons below their messages, and their commands.

use vstd::prelude::*;

use crate::icons;
use crate::messages::action::MessageAction;
use crate::text::{lowercase, lowercased, stands_at, starts_with};
use crate::tg::{BotCommand, ButtonKind, KeyboardButton};

verus! {

/// Keys that the list of commands takes.
pub const KEY_ESCAPE: u32 = 0xff1b;

pub const KEY_RETURN: u32 = 0xff0d;

pub const KEY_KP_ENTER: u32 = 0xff8d;

pub const KEY_TAB: u32 = 0xff09;

pub const KEY_UP: u32 = 0xff52;

pub const KEY_DOWN: u32 = 0xff54;

/// What a button says.
pub open spec fn label_of(button: KeyboardButton) -> Seq<char> {
    match button.kind {
        ButtonKind::Url(_) => button.text@ + " "@ + icons::EXTERNAL@,
        _ => button.text@,
    }
}

pub fn button_label(button: &KeyboardButton) -> (label: String)
    ensures
        label@ == label_of(*button),
{
    let mut label = button.text.clone();
    if let ButtonKind::Url(_) = &button.kind {
        label.push_str(" ");
        label.push_str(icons::EXTERNAL);
    }
    label
}

/// Whether a button can be pressed.
pub fn button_sensitive(button: &KeyboardButton) -> (sensitive: bool)
    ensures
        sensitive == !(button.kind is Other),
{
    !matches!(button.kind, ButtonKind::Other)
}

/// What comes of pressing a button.
pub struct Pressed {
    pub action: Option<MessageAction>,
    /// What the button says from now on, where that changes. It then cannot be pressed
    /// until the bot has answered.
    pub in_flight: Option<String>,
}

fn copy_bytes(bytes: &Vec<u8>) -> (copy: Vec<u8>)
    ensures
        copy@ == bytes@,
{
    let mut copy: Vec<u8> = Vec::new();
    let mut i: usize = 0;
    while i < bytes.len()
        invariant
            i <= bytes@.len(),
            copy@ == bytes@.take(i as int),
        decreases bytes@.len() - i,
    {
        copy.push(bytes[i]);
        i += 1;
        assert(copy@ =~= bytes@.take(i as int));
    }
    assert(bytes@.take(i as int) =~= bytes@);
    copy
}

/// A button below the message `msg_id` of the bot `bot_username` was pressed.
pub fn press(button: &KeyboardButton, msg_id: i32, bot_username: &str) -> (pressed: Pressed)
    ensures
        match button.kind {
            ButtonKind::Callback(data) => {
                &&& pressed.in_flight is Some
                &&& pressed.in_flight->0@ == button.text@ + " …"@
                &&& match pressed.action {
                    Some(MessageAction::PressButton { msg_id: id, data: sent }) => id == msg_id
                        && sent@ == data@,
                    _ => false,
                }
            },
            ButtonKind::Url(url) => pressed.in_flight is None && pressed.action == Some(
                MessageAction::OpenLink(url),
            ),
            ButtonKind::SwitchInline { query, same_chat } => {
                &&& pressed.in_flight is None
                &&& match pressed.action {
                    Some(
                        MessageAction::SwitchInline { query: sent, same_chat: same, bot_username: bot },
                    ) => sent == query && same == same_chat && bot@ == bot_username@,
                    _ => false,
                }
            },
            ButtonKind::Other => pressed.in_flight is None && pressed.action is None,
        },
{
    match &button.kind {
        ButtonKind::Callback(data) => {
            let mut label = button.text.clone();
            label.push_str(" …");
            Pressed {
                action: Some(MessageAction::PressButton { msg_id, data: copy_bytes(data) }),
                in_flight: Some(label),
            }
        },
        ButtonKind::Url(url) => Pressed {
            action: Some(MessageAction::OpenLink(url.clone())),
            in_flight: None,
        },
        ButtonKind::SwitchInline { query, same_chat } => Pressed {
            action: Some(
                MessageAction::SwitchInline {
                    query: query.clone(),
                    same_chat: *same_chat,
                    bot_username: bot_username.to_owned(),
                },
            ),
            in_flight: None,
        },
        ButtonKind::Other => Pressed { action: None, in_flight: None },
    }
}

/// What the button says that begins the talk with a bot.
pub fn start_label() -> (label: String)
    ensures
        label@ == icons::ROBOT@ + " Start"@,
{
    let mut label = icons::ROBOT.to_owned();
    label.push_str(" Start");
    label
}

/// Which commands begin with what was typed. Case does not matter.
pub open spec fn begins_with(prefix: Seq<char>) -> spec_fn(BotCommand) -> bool {
    |command: BotCommand| stands_at(lowercased(command.command@), lowercased(prefix), 0)
}

/// The commands that are offered.
pub open spec fn offered(commands: Seq<BotCommand>, prefix: Seq<char>) -> Seq<BotCommand> {
    commands.filter(begins_with(prefix))
}

/// What became of a key.
#[derive(Debug, PartialEq, Eq)]
pub enum KeyUse {
    /// It is left to the composer.
    Ignored,
    Consumed,
    /// The command is to be put into the composer.
    Chosen(String),
}

/// The list of a bot's commands above the composer.
pub struct CommandPopover {
    pub commands: Vec<BotCommand>,
    /// The commands that are offered, each with its slash.
    pub visible: Vec<String>,
    pub selected: Option<usize>,
    pub active: bool,
}

impl CommandPopover {
    /// The list is open only while it offers something, and one of its rows is
    /// selected then.
    pub open spec fn well_formed(self) -> bool {
        &&& self.selected is Some ==> self.selected->0 < self.visible@.len()
        &&& self.active ==> self.selected is Some
        &&& self.visible@.len() <= i32::MAX
    }

    pub fn new() -> (popover: CommandPopover)
        ensures
            popover.well_formed(),
            popover.commands@.len() == 0,
            popover.visible@.len() == 0,
            popover.selected is None,
            !popover.active,
    {
        CommandPopover { commands: Vec::new(), visible: Vec::new(), selected: None, active: false }
    }

    pub fn set_commands(&mut self, commands: Vec<BotCommand>)
        ensures
            *final(self) == (CommandPopover { commands, ..*old(self) }),
    {
        self.commands = commands;
    }

    /// What was typed behind the slash changed.
    pub fn refresh(&mut self, prefix: &str)
        requires
            old(self).commands@.len() <= i32::MAX,
        ensures
            final(self).well_formed(),
            final(self).visible@.len() == offered(old(self).commands@, prefix@).len(),
            forall|i: int|
                0 <= i < final(self).visible@.len() ==> (#[trigger] final(self).visible@[i])@
                    == "/"@ + offered(old(self).commands@, prefix@)[i].command@,
            final(self).active == (offered(old(self).commands@, prefix@).len() > 0),
            final(self).selected == (if final(self).active { Some(0usize) } else { None }),
            final(self).commands == old(self).commands,
    {
        let lower = lowercase(prefix);
        let ghost keep = begins_with(prefix@);
        let mut visible: Vec<String> = Vec::new();
        let mut i: usize = 0;
        proof {
            reveal(Seq::filter);
            assert(self.commands@.take(0) =~= Seq::<BotCommand>::empty());
        }
        while i < self.commands.len()
            invariant
                i <= self.commands@.len(),
                *self == *old(self),
                keep == begins_with(prefix@),
                lower@ == lowercased(prefix@),
                visible@.len() <= i,
                visible@.len() == self.commands@.take(i as int).filter(keep).len(),
                forall|j: int|
                    0 <= j < visible@.len() ==> (#[trigger] visible@[j])@ == "/"@
                        + self.commands@.take(i as int).filter(keep)[j].command@,
            decreases self.commands@.len() - i,
        {
            proof {
                reveal(Seq::filter);
                assert(self.commands@.take(i + 1).drop_last() =~= self.commands@.take(i as int));
                assert(self.commands@.take(i + 1).last() == self.commands@[i as int]);
            }
            let command = lowercase(&self.commands[i].command);
            let matches = starts_with(&command, &lower);
            assert(matches == keep(self.commands@[i as int]));
            if matches {
                let mut text = "/".to_owned();
                text.push_str(&self.commands[i].command);
                visible.push(text);
            }
            i += 1;
        }
        assert(self.commands@.take(i as int) =~= self.commands@);
        let any = visible.len() > 0;
        self.visible = visible;
        self.selected = if any { Some(0) } else { None };
        self.active = any;
    }

    pub fn dismiss(&mut self)
        ensures
            *final(self) == (CommandPopover { active: false, ..*old(self) }),
    {
        self.active = false;
    }

    pub fn is_open(&self) -> (open: bool)
        ensures
            open == self.active,
    {
        self.active
    }

    pub fn row_count(&self) -> (count: usize)
        ensures
            count == self.visible@.len(),
    {
        self.visible.len()
    }

    /// The command of the selected row.
    pub fn selected(&self) -> (command: Option<String>)
        requires
            self.well_formed(),
        ensures
            command == (match self.selected {
                Some(at) => Some(self.visible@[at as int]),
                None => None,
            }),
    {
        match self.selected {
            Some(at) => Some(self.visible[at].clone()),
            None => None,
        }
    }

    /// A row was clicked. Returns its command.
    pub fn choose_row(&mut self, index: i32) -> (command: Option<String>)
        requires
            old(self).well_formed(),
        ensures
            final(self).well_formed(),
            ({
                let at = if index < 0 { 0 } else { index as int };
                if at < old(self).visible@.len() {
                    &&& command == Some(old(self).visible@[at])
                    &&& *final(self) == (CommandPopover { active: false, ..*old(self) })
                } else {
                    &&& command is None
                    &&& *final(self) == *old(self)
                }
            }),
    {
        let at: usize = if index < 0 { 0 } else { index as usize };
        if at < self.visible.len() {
            let command = self.visible[at].clone();
            self.dismiss();
            Some(command)
        } else {
            None
        }
    }

    /// The selected row is taken. Returns its command.
    pub fn activate_selected(&mut self) -> (command: Option<String>)
        requires
            old(self).well_formed(),
        ensures
            final(self).well_formed(),
            match old(self).selected {
                Some(at) => command == Some(old(self).visible@[at as int]) && *final(self) == (
                CommandPopover { active: false, ..*old(self) }),
                None => command is None && *final(self) == *old(self),
            },
    {
        match self.selected {
            Some(at) => self.choose_row(at as i32),
            None => None,
        }
    }

    /// Where the selection goes.
    pub open spec fn moved(self, delta: int) -> Option<usize> {
        if self.visible@.len() == 0 {
            self.selected
        } else {
            let current = match self.selected {
                Some(at) => at as int,
                None => 0,
            };
            let next = current + delta;
            if next < 0 {
                Some(0usize)
            } else if next > self.visible@.len() - 1 {
                Some((self.visible@.len() - 1) as usize)
            } else {
                Some(next as usize)
            }
        }
    }

    fn move_selection(&mut self, down: bool)
        requires
            old(self).well_formed(),
        ensures
            final(self).well_formed(),
            *final(self) == (CommandPopover {
                selected: old(self).moved(if down { 1 } else { -1 }),
                ..*old(self)
            }),
    {
        let count: usize = self.visible.len();
        if count == 0 {
            return;
        }
        let current: usize = match self.selected {
            Some(at) => at,
            None => 0,
        };
        let next: usize = if down {
            if current + 1 < count { current + 1 } else { count - 1 }
        } else if current > 0 {
            current - 1
        } else {
            0
        };
        self.selected = Some(next);
    }

    /// A key was pressed in the composer.
    pub fn handle_key(&mut self, key: u32) -> (use_of_key: KeyUse)
        requires
            old(self).well_formed(),
        ensures
            final(self).well_formed(),
            !old(self).active ==> use_of_key is Ignored && *final(self) == *old(self),
            old(self).active ==> {
                if key == KEY_ESCAPE {
                    &&& use_of_key is Consumed
                    &&& *final(self) == (CommandPopover { active: false, ..*old(self) })
                } else if key == KEY_RETURN || key == KEY_KP_ENTER || key == KEY_TAB {
                    &&& use_of_key == KeyUse::Chosen(
                        old(self).visible@[old(self).selected->0 as int],
                    )
                    &&& *final(self) == (CommandPopover { active: false, ..*old(self) })
                } else if key == KEY_UP || key == KEY_DOWN {
                    &&& use_of_key is Consumed
                    &&& *final(self) == (CommandPopover {
                        selected: old(self).moved(if key == KEY_DOWN { 1 } else { -1 }),
                        ..*old(self)
                    })
                } else {
                    &&& use_of_key is Ignored
                    &&& *final(self) == *old(self)
                }
            },
    {
        if !self.active {
            return KeyUse::Ignored;
        }
        if key == KEY_ESCAPE {
            self.dismiss();
            KeyUse::Consumed
        } else if key == KEY_RETURN || key == KEY_KP_ENTER || key == KEY_TAB {
            match self.activate_selected() {
                Some(command) => KeyUse::Chosen(command),
                None => KeyUse::Consumed,
            }
        } else if key == KEY_UP {
            self.move_selection(false);
            KeyUse::Consumed
        } else if key == KEY_DOWN {
            self.move_selection(true);
            KeyUse::Consumed
        } else {
            KeyUse::Ignored
        }
    }
}

/// The selection never leaves the list.
pub proof fn law_selection_stays_in_the_list(popover: CommandPopover, delta: int)
    requires
        popover.well_formed(),
        popover.visible@.len() > 0,
    ensures
        popover.moved(delta) is Some,
        popover.moved(delta)->0 < popover.visible@.len(),
{
}

} // verus!
