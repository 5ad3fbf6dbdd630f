use std::path::PathBuf;

use omarchygram_ui::clock::Stamp;
use omarchygram_ui::icons;
use omarchygram_ui::info_panel::{
    chat_status, grid_cell, presence_text, role_badge, shared_kind_key, shared_label, InfoAction,
    InfoPanel,
};
use omarchygram_ui::tg::{
    ChatInfo, ChatKind, ChatSummary, Member, MemberRole, Msg, Presence, SharedKind,
};

fn now() -> Stamp {
    Stamp::new(1_788_343_200, 0, 0).unwrap()
}

fn chat(id: i64) -> ChatSummary {
    ChatSummary {
        id,
        title: "Arch".to_string(),
        kind: ChatKind::Group,
        username: String::new(),
        last_message: String::new(),
        last_time: None,
        last_sender: String::new(),
        last_outgoing: false,
        last_msg_id: 0,
        unread: 0,
        unread_mark: false,
        mentions: 0,
        muted: false,
        pinned: false,
        archived: false,
        forum: false,
        has_photo: false,
        draft: String::new(),
        presence: Presence::Unknown,
        read_outbox_max_id: 0,
    }
}

fn info(id: i64) -> ChatInfo {
    ChatInfo {
        id,
        title: "Arch".to_string(),
        kind: ChatKind::Group,
        username: "archlinux".to_string(),
        phone: String::new(),
        about: "btw".to_string(),
        members: Some(3),
        presence: Presence::Unknown,
        muted: true,
        has_photo: false,
    }
}

fn member(user_id: i64) -> Member {
    Member {
        user_id,
        name: "Leo".to_string(),
        presence: Presence::Online,
        role: MemberRole::Member,
    }
}

fn message(id: i32) -> Msg {
    Msg {
        id,
        chat_id: 5,
        chat_title: "Arch".to_string(),
        sender: "Leo".to_string(),
        sender_id: None,
        text: "text".to_string(),
        markdown: String::new(),
        ts: now(),
        outgoing: false,
        edited: false,
        deleted: false,
        media: None,
        doc_name: None,
        reply_to: None,
        forwarded_from: None,
        views: None,
        reactions: Vec::new(),
        duration: None,
        webpage: None,
    }
}

#[test]
fn every_shared_tab_has_a_stable_logical_key() {
    assert_eq!(shared_kind_key(SharedKind::Photos), "photos");
    assert_eq!(shared_kind_key(SharedKind::Files), "files");
    assert_eq!(shared_kind_key(SharedKind::Links), "links");
    assert_eq!(shared_kind_key(SharedKind::Voice), "voice");
}

#[test]
fn answers_for_another_chat_are_dropped() {
    let mut panel = InfoPanel::new();
    let (first, _) = panel.bind(&chat(1));
    let (second, _) = panel.bind(&chat(2));
    assert!(!panel.finish_info(1, first, &info(1), now()).0);
    assert!(panel.finish_info(2, second, &info(2), now()).0);
    assert!(panel.is_bound(2));
    assert!(!panel.notifications_enabled());
    assert!(!panel.fail_info(1, first, "late"));
}

#[test]
fn members_come_in_pages() {
    let mut panel = InfoPanel::new();
    let (generation, _) = panel.bind(&chat(2));
    assert_eq!(panel.begin_members(0), Some((2, generation, 0)));
    assert!(panel.finish_members(2, generation, 0, vec![member(7), member(8)]));
    assert_eq!(panel.members_count(), 2);
    assert!(!panel.finish_members(2, generation, 0, vec![member(9)]));
    assert!(panel.fail_members(2, generation, 2, "offline"));
    assert!(panel.members_retry_visible());
    assert_eq!(panel.members_state_text(), "offline");
}

#[test]
fn pages_of_another_tab_are_dropped() {
    let mut panel = InfoPanel::new();
    panel.bind(&chat(2));
    let photos = panel.begin_shared(SharedKind::Photos).unwrap();
    let files = panel.begin_shared(SharedKind::Files).unwrap();
    assert!(!panel.finish_shared(photos, vec![message(4)]));
    assert!(panel.finish_shared(files, vec![message(5)]));
    assert_eq!(panel.shared_count(), 1);
    assert_eq!(panel.shared_messages()[0].id, 5);
    assert_eq!(panel.shared_kind(), SharedKind::Files);
}

#[test]
fn thumbnails_belong_to_their_tab() {
    let mut panel = InfoPanel::new();
    let (generation, _) = panel.bind(&chat(2));
    let request = panel.begin_shared(SharedKind::Photos).unwrap();
    let shared = request.shared_generation;
    assert!(panel.finish_shared(request, vec![message(4)]));
    assert!(panel.set_thumbnail(2, generation, shared, 4, PathBuf::from("/tmp/4.png")));
    assert_eq!(panel.shared_path(4), Some(&PathBuf::from("/tmp/4.png")));
    assert!(!panel.set_thumbnail(2, generation, shared + 1, 4, PathBuf::from("/tmp/5.png")));
}

#[test]
fn shared_things_are_named() {
    let mut voice = message(1);
    voice.duration = Some(65);
    assert_eq!(
        shared_label(SharedKind::Voice, &voice),
        format!("{}  Voice message · 1:05", icons::MIC)
    );
    let mut link = message(2);
    link.webpage = Some("https://example.test".to_string());
    assert_eq!(
        shared_label(SharedKind::Links, &link),
        format!("{}  https://example.test", icons::LINK)
    );
    assert_eq!(
        shared_label(SharedKind::Files, &message(3)),
        format!("{}  File", icons::FILE)
    );
}

#[test]
fn pictures_fill_three_columns() {
    assert_eq!(grid_cell(0), (0, 1));
    assert_eq!(grid_cell(4), (1, 2));
}

#[test]
fn roles_and_states_are_described() {
    assert_eq!(role_badge(MemberRole::Creator), "owner");
    assert_eq!(role_badge(MemberRole::Admin), "admin");
    assert_eq!(role_badge(MemberRole::Member), "");
    assert_eq!(presence_text(Presence::Online, now()), "online");
    assert_eq!(chat_status(&info(1), now()), "3 members");
}

#[test]
fn a_switch_asks_for_what_it_shows() {
    let mut panel = InfoPanel::new();
    panel.bind(&chat(2));
    assert_eq!(panel.notifications_switched(false), InfoAction::SetNotifications(false));
    panel.unbind();
    assert_eq!(panel.chat_id(), None);
    assert!(panel.begin_members(0).is_none());
}

#[test]
fn a_new_panel_shows_no_chat() {
    let panel = InfoPanel::new();
    assert!(panel.profile.title.is_empty() && panel.profile.about.is_empty());
    assert!(panel.profile.photo_shown && !panel.profile.notifications);
    assert!(panel.profile.avatar.letters.is_empty());
    assert_eq!(panel.profile.avatar.generation, 0);
}
