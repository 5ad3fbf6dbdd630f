use chrono::{Local, TimeZone};
use omarchygram_ui::chatlist::chats::VirtualRow;
use omarchygram_ui::chatlist::list::{ChatList, SidebarMode};
use omarchygram_ui::chatlist::row::{
    badge_of, format_time_at, search_message_heading, show_context, title_of, update_row,
    update_unread, UnreadUpdate,
};
use omarchygram_ui::chatlist::search::{SearchRetry, SectionState};
use omarchygram_ui::clock::Stamp;
use omarchygram_ui::menus::ChatAction;
use omarchygram_ui::tg::{ChatKind, ChatSummary, Folder, Msg, MuteMode, Presence};

fn local(year: i32, month: u32, day: u32, hour: u32, minute: u32) -> Stamp {
    let time = Local
        .with_ymd_and_hms(year, month, day, hour, minute, 0)
        .single()
        .unwrap();
    Stamp::new(time.timestamp(), 0, time.offset().local_minus_utc()).unwrap()
}

fn chat(id: i64, title: &str) -> ChatSummary {
    ChatSummary {
        id,
        title: title.to_string(),
        kind: ChatKind::User,
        username: String::new(),
        last_message: String::new(),
        last_time: None,
        last_sender: String::new(),
        last_outgoing: false,
        last_msg_id: 0,
        unread: 0,
        unread_mark: false,
        mentions: 0,
        muted: false,
        pinned: false,
        archived: false,
        forum: false,
        has_photo: false,
        draft: String::new(),
        presence: Presence::Unknown,
        read_outbox_max_id: 0,
    }
}

fn message(id: i32, chat_title: &str, sender: &str) -> Msg {
    Msg {
        id,
        chat_id: 1,
        chat_title: chat_title.to_string(),
        sender: sender.to_string(),
        sender_id: None,
        text: "found".to_string(),
        markdown: String::new(),
        ts: Stamp::new(0, 0, 0).unwrap(),
        outgoing: false,
        edited: false,
        deleted: false,
        media: None,
        doc_name: None,
        reply_to: None,
        forwarded_from: None,
        views: None,
        reactions: Vec::new(),
        duration: None,
        webpage: None,
    }
}

#[test]
fn time_column_uses_today_week_and_date_forms() {
    let now = local(2026, 9, 2, 12, 0);
    let today = local(2026, 9, 2, 7, 5);
    let monday = local(2026, 8, 31, 7, 5);
    let old = local(2026, 8, 20, 7, 5);
    assert_eq!(format_time_at(Some(today), now), "07:05");
    assert_eq!(format_time_at(Some(monday), now), "Mon");
    assert_eq!(format_time_at(Some(old), now), "20.08.26");
    assert_eq!(format_time_at(None, now), "");
}

#[test]
fn a_message_moves_its_chat_to_the_front() {
    let mut list = ChatList::new();
    list.set_chats(vec![chat(1, "One"), chat(2, "Two"), chat(3, "Three")]);
    list.set_virtual(vec![VirtualRow {
        id: -1,
        title: "Saved".to_string(),
        preview: String::new(),
    }]);
    list.upsert(3, "Three", "new", None, UnreadUpdate::Delta(1));
    let titles: Vec<String> = list.ordered().into_iter().map(|(_, title)| title).collect();
    assert_eq!(titles, vec!["Saved", "Three", "One", "Two"]);
    assert_eq!(list.unread(3), 1);
    list.update(2, "Two", "edited", None, UnreadUpdate::Delta(0));
    let ids: Vec<i64> = list.ordered().into_iter().map(|(id, _)| id).collect();
    assert_eq!(ids, vec![-1, 3, 1, 2]);
    assert_eq!(list.summary(2).unwrap().last_message, "edited");
}

#[test]
fn unread_messages_are_counted_up_and_down() {
    assert_eq!(update_unread(3, UnreadUpdate::To(0)), 0);
    assert_eq!(update_unread(3, UnreadUpdate::Delta(2)), 5);
    assert_eq!(update_unread(1, UnreadUpdate::Delta(-5)), 0);
    assert_eq!(update_unread(3, UnreadUpdate::To(-1)), 0);
}

#[test]
fn a_marked_chat_has_a_badge() {
    let mut summary = chat(1, "One");
    assert_eq!(badge_of(&summary), 0);
    summary.unread_mark = true;
    assert_eq!(badge_of(&summary), 1);
    summary.unread = 4;
    assert_eq!(badge_of(&summary), 4);
}

#[test]
fn untitled_chats_get_a_title() {
    assert_eq!(title_of(""), "Unknown");
    assert_eq!(title_of("Leo"), "Leo");
}

#[test]
fn a_draft_takes_the_place_of_the_last_message() {
    let now = local(2026, 9, 2, 12, 0);
    let mut summary = chat(1, "Leo");
    summary.last_message = "hello".to_string();
    summary.draft = "half a".to_string();
    let plan = update_row(&summary, false, false, now);
    assert!(plan.draft);
    assert_eq!(plan.preview, "half a");
    summary.draft.clear();
    let plan = update_row(&summary, false, false, now);
    assert!(!plan.draft);
    assert_eq!(plan.preview, "hello");
}

#[test]
fn the_menu_offers_the_opposite_of_what_is_set() {
    let mut summary = chat(1, "Leo");
    summary.muted = true;
    summary.pinned = true;
    let items = show_context(&summary);
    assert!(items.iter().any(|item| item.action == ChatAction::Mute(MuteMode::Unmute)));
    assert!(items.iter().any(|item| item.action == ChatAction::Pin(false)));
    assert!(items.iter().any(|item| item.action == ChatAction::Delete && item.danger));
}

#[test]
fn what_was_read_here_is_not_unread_again() {
    let mut list = ChatList::new();
    let mut unread = chat(1, "One");
    unread.unread = 5;
    list.set_chats(vec![unread]);
    list.clear_unread(1);
    assert_eq!(list.unread(1), 0);
    list.set_unread_mark(1, true);
    assert!(list.summary(1).unwrap().unread_mark);
    list.set_read_outbox(1, 7);
    list.set_read_outbox(1, 3);
    assert_eq!(list.summary(1).unwrap().read_outbox_max_id, 7);
}

#[test]
fn a_search_is_left_behind_with_its_answers() {
    let mut list = ChatList::new();
    list.set_chats(vec![chat(1, "Arch"), chat(2, "Marta")]);
    let (query, generation) = list.search_changed(" mar ");
    assert_eq!(query, "mar");
    assert_eq!(list.mode(), SidebarMode::Search("mar".to_string()));
    let found: Vec<i64> = list.found_chats().into_iter().map(|chat| chat.id).collect();
    assert_eq!(found, vec![2]);
    assert_eq!(list.chats_section(), SectionState::Loading);
    list.finish_chat_search("mar", generation, Ok(vec![chat(2, "Marta"), chat(9, "Marco")]));
    let found: Vec<i64> = list.found_chats().into_iter().map(|chat| chat.id).collect();
    assert_eq!(found, vec![2, 9]);
    list.finish_message_search("mar", generation, Err("offline".to_string()));
    assert_eq!(list.messages_section(), SectionState::Failed("offline".to_string()));
    assert_eq!(
        list.activate_message_retry(),
        (SearchRetry::Messages, "mar".to_string(), generation)
    );
    let (_, later) = list.search_changed("");
    assert!(later != generation);
    assert_eq!(list.mode(), SidebarMode::Dialogs(0));
    list.finish_chat_search("mar", generation, Ok(vec![chat(4, "Late")]));
    assert!(list.search_summary(4).is_none());
}

#[test]
fn short_searches_ask_for_more() {
    let mut list = ChatList::new();
    list.search_changed("ab");
    assert_eq!(list.chats_section(), SectionState::Note("No results"));
    assert_eq!(
        list.messages_section(),
        SectionState::Note("Type 3 characters to search messages")
    );
}

#[test]
fn the_archive_leads_back_to_where_it_was_opened() {
    let mut list = ChatList::new();
    list.set_chats(vec![chat(1, "One"), chat(2, "Two")]);
    list.set_folders(
        vec![Folder { id: 7, title: "Work".to_string(), chats: vec![2] }],
        7,
    );
    list.open_tab(7);
    assert_eq!(list.visible_ids(), vec![2]);
    list.show_archived();
    assert_eq!(list.mode(), SidebarMode::Archived);
    list.show_dialogs_from_archive();
    assert_eq!(list.mode(), SidebarMode::Dialogs(7));
}

#[test]
fn the_selection_stays_in_the_list() {
    let mut list = ChatList::new();
    list.set_chats(vec![chat(1, "One"), chat(2, "Two")]);
    assert_eq!(list.select_next(), Some(1));
    list.select_chat(1);
    assert_eq!(list.select_next(), Some(2));
    list.select_chat(2);
    assert_eq!(list.select_next(), Some(2));
    assert_eq!(list.select_prev(), Some(1));
}

#[test]
fn folders_count_their_unread_messages() {
    let mut list = ChatList::new();
    let mut unread = chat(2, "Two");
    unread.unread = 3;
    list.set_chats(vec![chat(1, "One"), unread]);
    let folder = Folder { id: 7, title: "Work".to_string(), chats: vec![1, 2, 5] };
    assert_eq!(list.folder_unread(&folder), 3);
}

#[test]
fn a_found_message_says_where_and_from_whom_it_is() {
    assert_eq!(search_message_heading(&message(1, "Arch", "Leo")), "Arch · Leo");
    assert_eq!(search_message_heading(&message(1, "Arch", "")), "Arch");
    assert_eq!(search_message_heading(&message(1, "Leo", "Leo")), "Leo");
}

#[test]
fn a_narrow_sidebar_has_small_avatars() {
    let mut list = ChatList::new();
    assert_eq!((list.width(), list.avatar_size()), (220, 44));
    list.set_collapsed(true);
    assert_eq!((list.width(), list.avatar_size()), (64, 28));
    assert!(list.is_collapsed());
}

#[test]
fn removed_chats_are_gone() {
    let mut list = ChatList::new();
    list.set_chats(vec![chat(1, "One"), chat(2, "Two")]);
    list.remove_chat(1);
    assert!(list.summary(1).is_none());
    let ids: Vec<i64> = list.ordered().into_iter().map(|(id, _)| id).collect();
    assert_eq!(ids, vec![2]);
}

fn virtual_row(id: i64, title: &str) -> VirtualRow {
    VirtualRow { id, title: title.to_string(), preview: format!("{title} preview") }
}

fn order_of(list: &ChatList) -> Vec<i64> {
    list.ordered().into_iter().map(|(id, _)| id).collect()
}

#[test]
fn a_row_that_is_given_twice_stands_in_the_list_twice() {
    let mut list = ChatList::new();
    list.set_chats(vec![chat(1, "One"), chat(2, "Two")]);
    list.set_virtual(vec![
        virtual_row(-1, "Old"),
        virtual_row(-2, "Other"),
        virtual_row(-1, "New"),
    ]);
    assert_eq!(order_of(&list), vec![-1, -2, -1, 1, 2]);
    assert_eq!(list.visible_ids(), vec![-1, -2, -1, 1, 2]);
    assert_eq!(list.summary(-1).unwrap().title, "New");
    assert_eq!(list.summary(-1).unwrap().last_message, "New preview");
    assert_eq!(list.summary(-2).unwrap().title, "Other");
    list.upsert(2, "Two", "hello", None, UnreadUpdate::Delta(1));
    assert_eq!(order_of(&list), vec![-1, -2, -1, 2, 1]);
    list.upsert(-1, "New", "hello", None, UnreadUpdate::Delta(1));
    assert_eq!(order_of(&list), vec![-1, -2, 2, 1]);
}

#[test]
fn a_removed_chat_that_is_not_telegrams_still_counts_in_front() {
    let mut list = ChatList::new();
    list.set_chats(vec![chat(1, "One"), chat(2, "Two")]);
    list.set_virtual(vec![virtual_row(-1, "Saved")]);
    list.select_chat(-1);
    list.remove_chat(-1);
    assert!(list.summary(-1).is_none());
    assert_eq!(list.selected(), None);
    assert_eq!(order_of(&list), vec![1, 2]);
    assert!(list.can_move(2));
    list.upsert(2, "Two", "hello", None, UnreadUpdate::Delta(1));
    assert_eq!(order_of(&list), vec![1, 2]);
    list.set_chats(vec![chat(2, "Two"), chat(1, "One")]);
    assert_eq!(order_of(&list), vec![2, 1]);
    list.set_summary(chat(-1, "Saved"));
    assert_eq!(order_of(&list), vec![-1, 2, 1, -1]);
    list.set_virtual(vec![virtual_row(-2, "Other")]);
    assert_eq!(order_of(&list), vec![-2, 2, 1]);
}

#[test]
fn a_list_without_other_chats_is_too_short_for_a_removed_one() {
    let mut list = ChatList::new();
    list.set_virtual(vec![virtual_row(-1, "Saved")]);
    assert!(list.can_move(5));
    list.remove_chat(-1);
    assert!(!list.can_move(5));
    assert!(list.can_move(-1));
}
