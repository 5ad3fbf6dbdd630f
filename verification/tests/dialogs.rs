use omarchygram_ui::auth::{
    digits_in, parse_api_id, valid_api_hash_text, AuthAction, AuthView, CredentialsForm,
};
use omarchygram_ui::clock::Stamp;
use omarchygram_ui::contacts::{contact_status, ContactsAction, ContactsDialog};
use omarchygram_ui::forward::ForwardDialog;
use omarchygram_ui::locationdialog::{
    cell_offset, choice_labels, GeoPoint, LocationDialog, LocationDialogAction,
};
use omarchygram_ui::newgroup::{NewGroupAction, NewGroupDialog};
use omarchygram_ui::tg::{AuthState, ChatKind, ChatSummary, Contact, Presence};

fn contact(user_id: i64, name: &str) -> Contact {
    Contact {
        user_id,
        name: name.to_string(),
        username: String::new(),
        phone: String::new(),
        presence: Presence::Recently,
        has_photo: false,
    }
}

fn chat(id: i64, title: &str) -> ChatSummary {
    ChatSummary {
        id,
        title: title.to_string(),
        kind: ChatKind::User,
        username: String::new(),
        last_message: String::new(),
        last_time: None,
        last_sender: String::new(),
        last_outgoing: false,
        last_msg_id: 0,
        unread: 0,
        unread_mark: false,
        mentions: 0,
        muted: false,
        pinned: false,
        archived: false,
        forum: false,
        has_photo: false,
        draft: String::new(),
        presence: Presence::Unknown,
        read_outbox_max_id: 0,
    }
}

#[test]
fn api_ids_are_positive_numbers() {
    assert_eq!(parse_api_id(" 12345 "), Some(12345));
    assert_eq!(parse_api_id("0"), None);
    assert_eq!(parse_api_id("-5"), None);
    assert_eq!(parse_api_id("2147483648"), None);
    assert_eq!(parse_api_id("x"), None);
    assert_eq!(parse_api_id(""), None);
}

#[test]
fn api_hashes_are_32_hexadecimal_digits() {
    assert!(valid_api_hash_text("0123456789abcdef0123456789ABCDEF"));
    assert!(!valid_api_hash_text("0123456789abcdef"));
    assert!(!valid_api_hash_text("g123456789abcdef0123456789abcdef"));
    assert_eq!(digits_in("a1 2b3"), "123");
}

#[test]
fn a_form_is_sent_once() {
    let mut form = CredentialsForm::new();
    assert!(form.do_submit().is_none());
    form.probe_set("12345", "0123456789abcdef0123456789abcdef");
    assert!(form.probe_submit_sensitive());
    let (id, hash) = form.do_submit().unwrap();
    assert_eq!(id, 12345);
    assert_eq!(hash, "0123456789abcdef0123456789abcdef");
    assert!(form.do_submit().is_none());
    form.show_error("refused");
    assert_eq!(form.probe_error().as_deref(), Some("refused"));
}

#[test]
fn each_step_of_the_login_asks_for_its_answer() {
    let mut view = AuthView::new();
    view.show_step(AuthState::NeedPhone);
    assert_eq!(
        view.probe_submit("+49123"),
        Some(AuthAction::SubmitPhone("+49123".to_string()))
    );
    assert_eq!(view.submit(), None);
    view.finish_error("wrong number");
    assert_eq!(view.error, "wrong number");
    view.show_step(AuthState::NeedCode);
    assert_eq!(
        view.probe_submit("12345"),
        Some(AuthAction::SubmitCode("12345".to_string()))
    );
    view.show_step(AuthState::NeedPassword);
    assert_eq!(
        view.probe_submit("open sesame"),
        Some(AuthAction::SubmitPassword("open sesame".to_string()))
    );
    assert_eq!(view.state(), AuthState::NeedPassword);
}

#[test]
fn contacts_are_found_by_their_names() {
    let mut dialog = ContactsDialog::new();
    let generation = dialog.begin();
    assert!(dialog.finish(generation, vec![contact(1, "Marta"), contact(2, "Leo")]));
    dialog.search_changed("mar");
    let names: Vec<String> = dialog.visible().into_iter().map(|row| row.name).collect();
    assert_eq!(names, vec!["Marta"]);
    assert_eq!(dialog.probe_open("Leo"), Some(ContactsAction::Open(2)));
    assert_eq!(dialog.probe_open("Nobody"), None);
    dialog.close();
    assert!(!dialog.finish(generation, vec![contact(3, "Late")]));
    assert!(!dialog.is_open());
}

#[test]
fn contacts_that_cannot_be_loaded_can_be_asked_for_again() {
    let mut dialog = ContactsDialog::new();
    let generation = dialog.begin();
    assert!(dialog.fail(generation, "offline"));
    assert!(dialog.retry_visible());
    assert_eq!(dialog.error_text(), "offline");
    assert!(!dialog.fail(generation + 1, "late"));
    let now = Stamp::new(0, 0, 0).unwrap();
    assert!(contact_status(&contact(1, "Marta"), now).contains("recently"));
}

#[test]
fn a_group_needs_a_title_and_members() {
    let mut dialog = NewGroupDialog::new();
    let generation = dialog.begin();
    assert!(dialog.finish_contacts(generation, vec![contact(1, "Marta"), contact(2, "Leo")]));
    assert!(dialog.submit().is_none());
    dialog.probe_set_title("Team");
    assert!(dialog.submit().is_none());
    assert!(dialog.probe_select("Leo"));
    assert_eq!(
        dialog.submit(),
        Some(NewGroupAction::Create { title: "Team".to_string(), user_ids: vec![2] })
    );
    dialog.set_busy(true);
    assert!(dialog.submit().is_none());
    dialog.show_create_error("refused");
    assert_eq!(dialog.error_text(), "refused");
    assert_eq!(dialog.selected_count(), 1);
}

#[test]
fn only_what_failed_is_forwarded_again() {
    let mut dialog = ForwardDialog::new();
    dialog.present(5, vec![11, 12], vec![chat(1, "One"), chat(2, "Two"), chat(3, "Three")], 4);
    assert!(dialog.submit().is_none());
    assert!(dialog.probe_select("One"));
    assert!(dialog.probe_select("Two"));
    let request = dialog.submit().unwrap();
    assert_eq!(request.ids, vec![11, 12]);
    assert_eq!(request.source_chat, 5);
    assert_eq!(request.targets, vec![1, 2]);
    dialog.set_busy(4, true);
    assert!(dialog.submit().is_none());
    dialog.show_result(4, 1, 2, &[2], Some("offline"));
    let again = dialog.submit().unwrap();
    assert_eq!(again.targets, vec![2]);
    dialog.show_result(3, 0, 1, &[1], None);
    assert_eq!(dialog.submit().unwrap().targets, vec![2]);
}

fn point(lat: f64, lon: f64) -> GeoPoint {
    GeoPoint { lat_bits: lat.to_bits(), lon_bits: lon.to_bits() }
}

#[test]
fn a_place_is_sent_where_one_is_typed() {
    let berlin = point(52.5, 13.4);
    let mut dialog = LocationDialog::new(berlin);
    let tiles = dialog.begin(berlin, Some(berlin), true);
    assert!(tiles.is_some());
    assert!(dialog.probe_can_send());
    assert_eq!(
        dialog.send(),
        Some(LocationDialogAction::Send { point: berlin, live_secs: None })
    );
    dialog.set_busy(true);
    assert_eq!(dialog.send(), None);
    dialog.show_error("refused");
    assert_eq!(dialog.probe_error(), "refused");
    dialog.entries_changed(None);
    assert!(!dialog.probe_can_send());
}

#[test]
fn tiles_of_an_earlier_map_are_dropped() {
    let berlin = point(52.5, 13.4);
    let mut dialog = LocationDialog::new(berlin);
    let first = dialog.begin(berlin, Some(berlin), true).unwrap();
    let second = dialog.zoom_in().unwrap();
    assert_eq!(dialog.probe_zoom(), 13);
    assert!(!dialog.complete_tile(first, true));
    for _ in 0..9 {
        assert!(dialog.complete_tile(second, false));
    }
    assert!(!dialog.probe_map_error().is_empty());
    assert_eq!(cell_offset(0), (-1, -1));
    assert_eq!(cell_offset(4), (0, 0));
    assert_eq!(choice_labels().len(), 4);
}

#[test]
fn zooming_loads_the_map_anew() {
    let berlin = point(52.5, 13.4);
    let mut dialog = LocationDialog::new(berlin);
    let first = dialog.begin(berlin, Some(berlin), true).unwrap();
    for _ in 0..9 {
        dialog.complete_tile(first, false);
    }
    assert!(dialog.map_error_visible);
    assert_eq!(dialog.zoom_out(), Some(first + 1));
    assert!(!dialog.map_error_visible);
    assert_eq!(dialog.map.pending, 9);
    while dialog.zoom_in().is_some() {}
    let closest = dialog.probe_zoom();
    let generation = dialog.map.generation;
    assert_eq!(dialog.zoom_in(), None);
    assert_eq!((dialog.probe_zoom(), dialog.map.generation), (closest, generation));
    dialog.begin(berlin, Some(berlin), false);
    assert_eq!(dialog.zoom_in(), None);
    assert_eq!(dialog.probe_zoom(), 13);
}

#[test]
fn a_failed_start_is_tried_again() {
    let mut view = AuthView::new();
    view.show_step(AuthState::NeedPhone);
    view.show_start_error("no network");
    assert_eq!(view.probe_submit("anything"), Some(AuthAction::RetryStart));
    assert_eq!(view.entry_text, "anything");
    assert!(view.busy);
    assert_eq!(view.probe_submit("again"), None);
    assert_eq!(view.entry_text, "again");
}

#[test]
fn a_form_that_failed_can_be_sent_again() {
    let mut form = CredentialsForm::new();
    form.probe_set("12345", "0123456789abcdef0123456789abcdef");
    assert!(form.do_submit().is_some());
    assert!(!form.fields_sensitive && !form.submit_sensitive);
    form.show_error("refused");
    assert!(form.fields_sensitive && form.submit_sensitive && form.error_visible);
    form.clear_values();
    assert!(form.fields_sensitive && !form.submit_sensitive && form.error_visible);
}
