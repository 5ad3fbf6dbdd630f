use omarchygram_ui::bots::{
    button_label, button_sensitive, press, start_label, CommandPopover, KeyUse, KEY_DOWN,
    KEY_ESCAPE, KEY_RETURN, KEY_UP,
};
use omarchygram_ui::cards::{build_contact, build_dice, build_geo, live_line, live_plan, MapSlot};
use omarchygram_ui::clock::Stamp;
use omarchygram_ui::icons;
use omarchygram_ui::messages::action::MessageAction;
use omarchygram_ui::tg::{
    BotCommand, ButtonKind, Dice, KeyboardButton, LiveLocation, Location, SharedContact,
};

fn at(secs: i64) -> Stamp {
    Stamp::new(secs, 0, 0).unwrap()
}

fn command(name: &str) -> BotCommand {
    BotCommand { command: name.to_string(), description: String::new() }
}

#[test]
fn buttons_do_what_their_kind_says() {
    let callback = KeyboardButton {
        text: "Vote".to_string(),
        kind: ButtonKind::Callback(vec![1, 2]),
    };
    let pressed = press(&callback, 7, "bot");
    assert_eq!(
        pressed.action,
        Some(MessageAction::PressButton { msg_id: 7, data: vec![1, 2] })
    );
    assert_eq!(pressed.in_flight.as_deref(), Some("Vote …"));
    let url = KeyboardButton {
        text: "Open".to_string(),
        kind: ButtonKind::Url("https://example.test".to_string()),
    };
    assert_eq!(button_label(&url), format!("Open {}", icons::EXTERNAL));
    assert_eq!(
        press(&url, 7, "bot").action,
        Some(MessageAction::OpenLink("https://example.test".to_string()))
    );
    let inline = KeyboardButton {
        text: "Share".to_string(),
        kind: ButtonKind::SwitchInline { query: "cats".to_string(), same_chat: true },
    };
    assert_eq!(
        press(&inline, 7, "bot").action,
        Some(MessageAction::SwitchInline {
            query: "cats".to_string(),
            same_chat: true,
            bot_username: "bot".to_string(),
        })
    );
    let other = KeyboardButton { text: "Pay".to_string(), kind: ButtonKind::Other };
    assert!(!button_sensitive(&other));
    assert_eq!(press(&other, 7, "bot").action, None);
    assert_eq!(start_label(), format!("{} Start", icons::ROBOT));
}

#[test]
fn commands_are_chosen_with_the_keys() {
    let mut popover = CommandPopover::new();
    popover.set_commands(vec![command("start"), command("stop"), command("help")]);
    popover.refresh("st");
    assert!(popover.is_open());
    assert_eq!(popover.row_count(), 2);
    assert_eq!(popover.selected().as_deref(), Some("/start"));
    assert_eq!(popover.handle_key(KEY_DOWN), KeyUse::Consumed);
    assert_eq!(popover.selected().as_deref(), Some("/stop"));
    assert_eq!(popover.handle_key(KEY_UP), KeyUse::Consumed);
    assert_eq!(popover.handle_key(KEY_RETURN), KeyUse::Chosen("/start".to_string()));
    popover.refresh("h");
    assert_eq!(popover.choose_row(0).as_deref(), Some("/help"));
    popover.refresh("zzz");
    assert!(!popover.is_open());
    assert_eq!(popover.handle_key(KEY_ESCAPE), KeyUse::Ignored);
}

#[test]
fn sharing_that_has_ended_stays_ended() {
    let live = LiveLocation { stopped: false, expires: at(1_000), last_update: at(100) };
    let running = live_plan(&live, true, at(200));
    assert!(running.own_buttons);
    assert!(running.timer);
    let over = live_plan(&live, true, at(1_001));
    assert!(!over.own_buttons);
    assert!(!over.timer);
    let stopped = LiveLocation { stopped: true, ..live };
    assert!(!live_plan(&stopped, true, at(200)).own_buttons);
    assert_eq!(live_line(&stopped, true, at(200)), live_line(&live, true, at(5_000)));
}

#[test]
fn a_place_shows_what_is_known_of_it() {
    let place = Location {
        title: "Café".to_string(),
        address: String::new(),
        live: None,
    };
    let plan = build_geo(&place, false, true, at(0));
    assert_eq!(plan.map, MapSlot::Loading);
    assert_eq!(plan.title.as_deref(), Some("Café"));
    assert_eq!(plan.address, None);
    assert!(plan.live.is_none());
    assert_eq!(build_geo(&place, false, false, at(0)).map, MapSlot::Glyph);
}

#[test]
fn shared_contacts_can_be_added() {
    let contact = SharedContact {
        first_name: "Marta".to_string(),
        last_name: "Neu".to_string(),
        phone: "+49".to_string(),
        user_id: Some(4),
    };
    let plan = build_contact(&contact, false);
    assert_eq!(plan.name, "Marta Neu");
    assert_eq!(plan.initials, "MN");
    assert_eq!(plan.open_chat, Some(4));
    assert!(plan.add_sensitive);
    assert!(!build_contact(&contact, true).add_sensitive);
}

#[test]
fn dice_show_their_value() {
    let rolled = build_dice(&Dice { emoji: "🎲".to_string(), value: 5 });
    assert!(rolled.value.contains('5'));
    let rolling = build_dice(&Dice { emoji: "🎲".to_string(), value: 0 });
    assert!(rolling.muted);
}
