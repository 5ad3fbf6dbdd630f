use std::path::PathBuf;

use omarchygram_ui::anim::effects::Effect;
use omarchygram_ui::anim::presets::AnimSettings;
use omarchygram_ui::anim::ticks::Effects;
use omarchygram_ui::clock::{Date, Stamp};
use omarchygram_ui::icons;
use omarchygram_ui::messages::action::MessageAction;
use omarchygram_ui::messages::changes::{
    first_visible, newly_edited, update_reactions, SettleStep, Settling,
};
use omarchygram_ui::messages::composer::{reply_label, snippet};
use omarchygram_ui::messages::media::Continuation;
use omarchygram_ui::messages::query::{context_menu, header_menu, ContextItem};
use omarchygram_ui::messages::rows::{
    bubble_start, bubble_width_limit, build_row, can_show_sender, child_width, date_chip_label,
    day_separator_label_at, forwarded_label, media_label, media_part, natural_width,
    presence_text, reaction_label, receipt_glyph, sender_color_index, sender_identity, time_label,
    valid_time_format, views_label, MediaPart, Receipt, RowSettings,
};
use omarchygram_ui::messages::store::MediaState;
use omarchygram_ui::messages::view::{MessagesView, Placeholder};
use omarchygram_ui::tg::{ChatKind, MediaKind, Msg, MsgVersion, Presence, Reaction};

fn at(secs: i64) -> Stamp {
    Stamp::new(secs, 0, 0).unwrap()
}

fn message(id: i32, text: &str) -> Msg {
    Msg {
        id,
        chat_id: 5,
        chat_title: "Arch".to_string(),
        sender: "Leo".to_string(),
        sender_id: Some(9),
        text: text.to_string(),
        markdown: String::new(),
        ts: at(1_788_343_200 + i64::from(id)),
        outgoing: false,
        edited: false,
        deleted: false,
        media: None,
        doc_name: None,
        reply_to: None,
        forwarded_from: None,
        views: None,
        reactions: Vec::new(),
        duration: None,
        webpage: None,
    }
}

fn open_chat() -> MessagesView {
    let mut view = MessagesView::new();
    view.reset_chat(5, "Arch", 1, false);
    view
}

fn ids(view: &MessagesView) -> Vec<i32> {
    view.messages().into_iter().map(|msg| msg.id).collect()
}

#[test]
fn day_separator_labels_cover_relative_and_absolute_dates() {
    let today = Date::from_ymd_opt(2026, 9, 2).unwrap();
    assert_eq!(day_separator_label_at(today, today), "Today");
    assert_eq!(
        day_separator_label_at(Date::from_ymd_opt(2026, 9, 1).unwrap(), today),
        "Yesterday"
    );
    assert_eq!(
        day_separator_label_at(Date::from_ymd_opt(2026, 8, 20).unwrap(), today),
        "August 20"
    );
    assert_eq!(
        day_separator_label_at(Date::from_ymd_opt(2025, 9, 1).unwrap(), today),
        "1 September 2025"
    );
}

#[test]
fn bubble_width_is_capped_by_pane_fraction_and_pixels() {
    assert_eq!(bubble_width_limit(Some(600)), 396);
    assert_eq!(bubble_width_limit(Some(1200)), 520);
    assert_eq!(bubble_width_limit(None), 520);
}

#[test]
fn bubbles_shrink_and_stand_at_their_side() {
    assert_eq!(child_width(50, 400, 300, 520), 300);
    assert_eq!(natural_width(50, 400, 396), 396);
    assert_eq!(bubble_start(false, 600, 200), 0);
    assert_eq!(bubble_start(true, 600, 200), 400);
}

#[test]
fn pages_join_without_duplicates() {
    let mut view = open_chat();
    assert!(view.is_loading());
    let inserted = view.finish_initial(vec![message(12, "c"), message(11, "b"), message(12, "c")]);
    assert_eq!(inserted, vec![12, 11]);
    assert_eq!(ids(&view), vec![11, 12]);
    assert_eq!(view.begin_page(), None);
    assert!(!view.list_settled(0, true));
    assert!(view.list_settled(1, true));
    assert_eq!(view.begin_page(), Some(11));
    assert_eq!(view.begin_page(), None);
    view.finish_page(vec![message(10, "a"), message(11, "b again")]);
    assert_eq!(ids(&view), vec![10, 11, 12]);
    assert_eq!(view.message(11).unwrap().text, "b again");
    assert!(view.ids_unique());
    assert_eq!(view.last_id(), Some(12));
    assert_eq!(view.last_before(12).unwrap().id, 11);
    assert_eq!(view.last_excluding(&[12, 11]).unwrap().id, 10);
}

#[test]
fn an_id_that_occurs_twice_is_noticed() {
    let mut view = open_chat();
    view.finish_initial(vec![message(1, "a"), message(2, "b"), message(3, "c")]);
    assert!(view.ids_unique());
    view.store.entries[2].msg.id = 1;
    assert!(!view.ids_unique());
    view.store.entries[2].msg.id = 0;
    assert!(view.ids_unique());
}

#[test]
fn an_empty_chat_says_so() {
    let mut view = open_chat();
    view.finish_initial(Vec::new());
    assert!(!view.is_empty_state());
    assert_eq!(view.scroll.placeholder.text(), "No messages yet");
    view.clear_selection(2);
    assert!(view.is_empty_state());
    assert_eq!(view.scroll.placeholder, Placeholder::SelectChat);
}

#[test]
fn a_failed_page_can_be_asked_for_again() {
    let mut view = open_chat();
    view.finish_initial(vec![message(3, "x")]);
    view.list_settled(1, true);
    assert_eq!(view.begin_page(), Some(3));
    view.fail_page("offline");
    assert_eq!(view.notice.error, "offline");
    assert!(view.notice.visible);
    assert_eq!(view.begin_page(), Some(3));
}

#[test]
fn an_edit_that_is_given_up_restores_the_text() {
    let mut view = open_chat();
    let mut own = message(4, "sent");
    own.outgoing = true;
    view.finish_initial(vec![own]);
    view.set_composer_text("half written");
    view.begin_edit(4);
    assert!(view.is_editing());
    assert_eq!(view.composer_text(), "sent");
    assert_eq!(view.edit_id(), Some(4));
    assert!(view.cancel_mode());
    assert_eq!(view.composer_text(), "half written");
    assert!(!view.cancel_mode());
}

#[test]
fn a_draft_comes_back_with_its_reply_and_cursor() {
    let mut view = open_chat();
    view.finish_initial(vec![message(4, "question")]);
    view.begin_reply(4);
    view.composer_edited("answer".to_string(), 3);
    let (text, reply_to, cursor) = view.draft_snapshot_for_switch();
    assert_eq!((text.as_str(), reply_to, cursor), ("answer", Some(4), 3));
    view.set_composer_text("");
    view.cancel_all_modes();
    view.restore_draft(&text, reply_to, cursor);
    assert_eq!(view.composer_text(), "answer");
    assert_eq!(view.reply_to(), Some(4));
    assert_eq!(view.composer_cursor(), 3);
}

#[test]
fn quotes_are_shortened() {
    assert_eq!(snippet("abcdef", 3), "abc…");
    assert_eq!(snippet("abc", 3), "abc");
    assert_eq!(reply_label("", "hello"), "Reply to Unknown: hello");
}

#[test]
fn quoted_messages_are_asked_for_once() {
    let mut view = open_chat();
    let mut reply = message(8, "yes");
    reply.reply_to = Some(2);
    view.finish_initial(vec![reply]);
    assert_eq!(view.missing_reply_ids(), vec![2]);
    assert_eq!(view.quote_label(0).as_deref(), Some("replied message"));
    view.fill_quote_messages(vec![message(2, "shall we?")]);
    assert_eq!(view.quote_label(0).as_deref(), Some("Leo: shall we?"));
    assert!(view.missing_reply_ids().is_empty());
}

#[test]
fn files_are_fetched_once() {
    let mut view = open_chat();
    let mut photo = message(6, "");
    photo.media = Some(MediaKind::Photo);
    view.finish_initial(vec![photo, message(7, "text")]);
    assert_eq!(view.begin_media(6), Some(MediaKind::Photo));
    assert_eq!(view.begin_media(6), None);
    assert_eq!(view.begin_media(7), None);
    assert_eq!(view.on_media_ready(6, 40), Continuation::Queued);
    assert!(view.has_media_continuation(6));
    assert!(view.finish_image(6, PathBuf::from("/tmp/six.png")));
    assert!(matches!(view.media_state(6), Some(MediaState::Done(_))));
    assert!(!view.finish_image(99, PathBuf::from("/tmp/none.png")));
    assert_eq!(view.on_media_ready(6, 41), Continuation::Now);
    assert_eq!(view.on_media_ready(99, 42), Continuation::Missing);
}

#[test]
fn a_failed_file_is_fetched_again_only_where_that_helps() {
    let mut view = open_chat();
    let mut first = message(6, "");
    first.media = Some(MediaKind::Photo);
    let mut second = message(7, "");
    second.media = Some(MediaKind::Photo);
    view.finish_initial(vec![first, second]);
    view.begin_media(6);
    view.fail_media(6, true);
    assert_eq!(view.begin_media(6), Some(MediaKind::Photo));
    view.begin_media(7);
    view.fail_media(7, false);
    assert_eq!(view.begin_media(7), None);
}

#[test]
fn the_read_mark_only_rises() {
    let mut view = open_chat();
    view.set_read_outbox(9);
    view.set_read_outbox(4);
    assert_eq!(view.read_outbox, 9);
    assert_eq!(receipt_glyph(false, 9, 9), Receipt::Read);
    assert_eq!(receipt_glyph(false, 10, 9), Receipt::Sent);
    assert_eq!(receipt_glyph(true, 9, 9), Receipt::Pending);
    assert_eq!(Receipt::Read.glyph(), icons::CHECK_DOUBLE);
}

#[test]
fn deleted_messages_can_only_be_copied() {
    let mut gone = message(3, "x");
    gone.deleted = true;
    let items = context_menu(&gone, false, true, true);
    assert!(items.iter().all(|item| {
        matches!(
            item,
            ContextItem::Copy | ContextItem::CopyMessageId | ContextItem::CopyUserId
                | ContextItem::EditHistory
        )
    }));
    assert!(!items.contains(&ContextItem::Reply));
}

#[test]
fn only_own_messages_can_be_changed() {
    let mut own = message(3, "x");
    own.outgoing = true;
    let items = context_menu(&own, false, false, false);
    assert!(items.contains(&ContextItem::Edit));
    assert!(items.contains(&ContextItem::Delete));
    let items = context_menu(&message(3, "x"), false, false, false);
    assert!(!items.contains(&ContextItem::Edit));
    assert_eq!(ContextItem::Reply.action(3), Some(MessageAction::Reply(3)));
    assert_eq!(ContextItem::Copy.action(3), None);
    assert_eq!(ContextItem::Copy.label(), "Copy");
}

#[test]
fn the_header_offers_the_opposite_of_what_is_set() {
    let labels: Vec<&str> = header_menu(true, false).iter().map(|item| item.label).collect();
    assert!(labels.contains(&"Unmute"));
    assert!(labels.contains(&"Pin"));
}

#[test]
fn an_edited_message_says_so() {
    let ts = at(1_788_343_200);
    assert_eq!(time_label(ts, false, "%H:%M"), "10:00");
    assert_eq!(time_label(ts, true, "%H:%M"), "10:00 edited");
    assert_eq!(time_label(ts, false, "%Q"), "10:00");
    assert!(valid_time_format("%H:%M"));
    assert!(!valid_time_format("%Q"));
}

#[test]
fn rows_hold_what_the_message_holds() {
    let mut msg = message(3, "hello");
    msg.forwarded_from = Some("News".to_string());
    msg.views = Some(12);
    msg.reactions = vec![
        Reaction { emoji: "👍".to_string(), count: 1 },
        Reaction { emoji: "🔥".to_string(), count: 3 },
    ];
    let settings = RowSettings {
        kind: ChatKind::Group,
        ai_enabled: false,
        time_format: "%H:%M",
        pending: false,
        read_outbox: 0,
    };
    let plan = build_row(&msg, &settings);
    assert!(plan.sender_visible);
    assert!(plan.has_text);
    assert!(!plan.receipt_visible);
    assert_eq!(plan.reactions, vec!["👍".to_string(), "🔥 3".to_string()]);
    assert_eq!(plan.forwarded, Some(format!("{} Forwarded from News", icons::FORWARD)));
    assert_eq!(plan.views, Some(format!("{} 12", icons::EYE)));
    assert_eq!(plan.color, sender_color_index(&msg));
    assert_eq!(forwarded_label(&None), None);
    assert_eq!(views_label(None), None);
    assert!(!can_show_sender(ChatKind::User, &msg));
}

#[test]
fn unknown_senders_are_told_apart_by_their_ids() {
    let mut msg = message(3, "x");
    assert_eq!(sender_identity(&msg), "9");
    msg.sender_id = None;
    assert_eq!(sender_identity(&msg), "Leo");
    assert!(sender_color_index(&msg) < 7);
}

#[test]
fn files_have_names_and_places() {
    let mut file = message(3, "");
    file.media = Some(MediaKind::Document);
    file.doc_name = Some("notes.txt".to_string());
    assert_eq!(media_part(file.media), MediaPart::Button);
    assert_eq!(media_part(None), MediaPart::Absent);
    assert!(media_label(&file).contains("notes.txt"));
}

#[test]
fn someone_who_was_seen_is_described() {
    let now = at(1_788_343_200);
    assert_eq!(presence_text(Presence::Online, now), "Online");
    assert_eq!(presence_text(Presence::Recently, now), "last seen recently");
    assert_eq!(presence_text(Presence::Unknown, now), "");
}

#[test]
fn the_chip_names_the_day_in_view() {
    let now = at(1_788_343_200);
    assert_eq!(date_chip_label(None, now), "");
    assert_eq!(date_chip_label(Some(now), now), "today");
    assert_eq!(date_chip_label(Some(at(1_788_343_200 - 86_400)), now), "Sep 1, 2026");
    assert_eq!(first_visible(&vec![false, true, true]), Some(1));
    assert_eq!(first_visible(&vec![false, false]), Some(1));
    assert_eq!(first_visible(&Vec::new()), None);
}

#[test]
fn separators_stand_where_the_day_changes() {
    let mut view = open_chat();
    let mut later = message(2, "b");
    later.ts = at(1_788_343_200 + 86_400);
    let mut same = message(3, "c");
    same.ts = at(1_788_343_200 + 86_400 + 60);
    view.finish_initial(vec![message(1, "a"), later, same]);
    let days: Vec<bool> = view.placements().iter().map(|row| row.new_day.is_some()).collect();
    assert_eq!(days, vec![true, true, false]);
}

#[test]
fn what_someone_types_is_forgotten_with_its_time() {
    let mut view = open_chat();
    let first = view.set_typing("Leo");
    let second = view.set_typing("Marta");
    view.clear_typing_if(first);
    assert!(view.header.typing);
    view.clear_typing_if(second);
    assert!(!view.header.typing);
}

#[test]
fn edits_are_listed_from_the_first_version() {
    let mut view = open_chat();
    view.finish_initial(vec![message(3, "now")]);
    let versions = vec![MsgVersion { text: "before".to_string(), replaced_at: at(60) }];
    let lines = view.show_edit_history(3, &versions).unwrap();
    assert!(lines.iter().any(|line| line.text == "before"));
    assert_eq!(view.history_version_count(), versions.len());
    assert_eq!(view.history_current_text().as_deref(), Some("now"));
    assert!(view.show_edit_history(99, &versions).is_none());
}

#[test]
fn the_button_sends_what_is_written() {
    let mut view = open_chat();
    assert!(view.sends_voice());
    assert_eq!(view.send_look().tooltip, "Voice message");
    assert_eq!(view.send_look().icon, icons::MIC);
    view.set_composer_text("hi");
    assert!(!view.sends_voice());
    assert!(view.send_look().primary);
    assert_eq!(view.return_pressed(true), (false, false));
    assert_eq!(view.return_pressed(false), (true, true));
    view.set_busy(true);
    assert_eq!(view.return_pressed(false), (true, false));
    assert!(!view.accepts_drop());
}

#[test]
fn changed_reactions_roll_and_burst() {
    let mut settings = AnimSettings::new();
    settings.set_animation(Effect::Reactroll, true);
    settings.set_animation(Effect::Reactburst, true);
    let effects = Effects::new(settings, true, None);
    let shown = vec!["👍".to_string(), "🔥 2".to_string(), "🎉".to_string()];
    let reactions = vec![
        Reaction { emoji: "👍".to_string(), count: 1 },
        Reaction { emoji: "🔥".to_string(), count: 3 },
    ];
    let steps = update_reactions(&shown, &reactions, true, &effects);
    assert_eq!(steps.len(), 3);
    assert!(steps[0].visible && steps[0].roll.is_none() && steps[0].burst.is_none());
    assert_eq!(steps[1].text, "🔥 3");
    assert_eq!(steps[1].roll.unwrap().0.class, "omg-run-reactroll");
    assert_eq!(steps[1].burst.unwrap().time, 320);
    assert!(!steps[2].visible);
    let still = update_reactions(&shown, &reactions, false, &effects);
    assert!(still[1].roll.is_none() && still[1].burst.is_none());
    assert_eq!(reaction_label(&reactions[0]), "👍");
}

#[test]
fn a_message_ripples_when_its_text_changes() {
    let mut msg = message(1, "new");
    assert!(!newly_edited(false, "old", &msg));
    msg.edited = true;
    assert!(newly_edited(false, "new", &msg));
    assert!(newly_edited(true, "old", &msg));
    assert!(!newly_edited(true, "new", &msg));
}

#[test]
fn a_list_that_does_not_grow_is_waited_for_in_three_frames() {
    let mut settling = Settling::new(4);
    assert_eq!(settling.size_told(4, false), SettleStep::Wait);
    assert_eq!(settling.size_told(4, true), SettleStep::Settled(true));
    assert_eq!(settling.frame_passed(4, false), SettleStep::Wait);
    assert_eq!(settling.frame_passed(4, false), SettleStep::Wait);
    assert_eq!(settling.frame_passed(4, false), SettleStep::Settled(false));
    let mut outdated = Settling::new(4);
    assert_eq!(outdated.frame_passed(5, true), SettleStep::Forget);
}

#[test]
fn removed_messages_are_handed_back() {
    let mut view = open_chat();
    view.finish_initial(vec![message(1, "a"), message(2, "b")]);
    assert_eq!(view.remove(1).unwrap().text, "a");
    assert!(view.remove(1).is_none());
    assert!(view.mark_deleted(2));
    assert!(view.is_deleted(2));
    assert!(!view.mark_deleted(9));
    assert_eq!(view.len(), 1);
    assert!(view.contains_text("b"));
}

#[test]
fn notes_below_a_message_are_found_and_cleared() {
    let mut view = open_chat();
    view.finish_initial(vec![message(1, "hola")]);
    assert!(view.render_aux(1, None, Some("hello"), None));
    assert!(view.aux_contains(1, "hello"));
    assert!(view.show_aux_error(1, "no answer"));
    assert!(view.aux_contains(1, "no answer"));
    view.clear_aux(1);
    assert!(!view.aux_contains(1, "no answer"));
    assert!(!view.render_aux(9, None, Some("x"), None));
}

#[test]
fn edits_are_noticed_page_by_page() {
    let mut view = MessagesView::new();
    assert!(view.drop_enabled && !view.ghost_mode && view.clock.is_none());
    assert!(!view.composer.reply_bar && !view.composer.edit_bar);
    view.reset_chat(5, "Arch", 1, false);
    view.finish_initial(vec![message(11, "b"), message(12, "c")]);
    assert!(view.edited_now.is_empty());
    let mut changed = message(11, "b, edited");
    changed.edited = true;
    view.merge_event(changed, false);
    assert_eq!(view.edited_now, vec![11]);
    view.finish_page(vec![message(10, "a")]);
    assert!(view.edited_now.is_empty());
}
