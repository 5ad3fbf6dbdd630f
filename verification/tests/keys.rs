use omarchygram_ui::keys::{
    canonical_form, char_offset_to_byte, find_conflicts, is_modifier_only, markers,
    shortcut_pressed, submit_accels, wrap_markers, wrap_selection, KeyOutcome,
};
use omarchygram_ui::keys_view::{CaptureOutcome, KeyAction, KeysView, SaveStep};

fn action(id: &str, group: &str, default: &str) -> KeyAction {
    KeyAction {
        id: id.to_string(),
        label: format!("Do {id}"),
        group: group.to_string(),
        default: default.to_string(),
        stored: default.to_string(),
    }
}

fn page() -> KeysView {
    KeysView::new(&vec![
        action("bold", "Composer", "<Control>b"),
        action("search", "Global", "<Control>k"),
        action("quit", "Global", "<Control>q"),
    ])
}

#[test]
fn a_selection_is_put_between_markers() {
    assert_eq!(markers("bold"), Some(("**", "**")));
    assert_eq!(markers("nothing"), None);
    let (text, cursor) = wrap_markers("a word b", 2, 6, "**", "**");
    assert_eq!(text, "a **word** b");
    assert_eq!(cursor, 10);
    let (text, cursor) = wrap_markers("ab", 1, 1, "`", "`");
    assert_eq!(text, "a``b");
    assert_eq!(cursor, 2);
}

#[test]
fn selections_are_counted_in_characters() {
    assert_eq!(char_offset_to_byte("äb", 1), 2);
    assert_eq!(char_offset_to_byte("äb", 9), 3);
    assert_eq!(char_offset_to_byte("äb", -1), 0);
    let wrapped = wrap_selection("äöü", 1, 2, "_", "_");
    assert_eq!(wrapped.text, "ä_ö_ü");
    assert_eq!(wrapped.replacement, "_ö_");
    assert_eq!(wrapped.cursor, 4);
}

#[test]
fn shortcuts_are_compared_without_locks_and_case() {
    assert_eq!(canonical_form(None), None);
    let lower = canonical_form(Some(('k' as u32, 4)));
    assert_eq!(canonical_form(Some(('k' as u32, 4 | 2))), lower);
}

#[test]
fn conflicts_are_found_within_a_group() {
    let row = |id: &str, group: &str, form: Option<(u32, u32)>| {
        (id.to_string(), group.to_string(), form)
    };
    let rows = vec![
        row("a", "Global", Some((1, 4))),
        row("b", "Composer", Some((1, 4))),
        row("c", "Global", Some((1, 4))),
        row("d", "Global", None),
        row("e", "Global", None),
    ];
    assert_eq!(find_conflicts(&rows), vec![(0, 2)]);
}

#[test]
fn modifiers_alone_are_no_shortcut() {
    assert!(is_modifier_only(0xffe1));
    assert!(!is_modifier_only('a' as u32));
    assert_eq!(shortcut_pressed(true), KeyOutcome::Proceed);
    assert_eq!(shortcut_pressed(false), KeyOutcome::Act);
    assert!(submit_accels(true).len() != submit_accels(false).len()
        || submit_accels(true) != submit_accels(false));
}

#[test]
fn global_shortcuts_stand_above_those_of_the_composer() {
    let ids: Vec<String> = page().rows.into_iter().map(|row| row.id).collect();
    assert_eq!(ids, vec!["search", "quit", "bold"]);
}

#[test]
fn a_shortcut_is_typed_in_and_saved() {
    let mut view = page();
    view.begin_capture(0);
    assert_eq!(view.on_capture_key('j' as u32, "<Control>j", true), CaptureOutcome::Staged);
    assert_eq!(view.capturing, None);
    let forms = vec![Some((1, 4)), Some((2, 4)), Some((3, 4))];
    view.refresh(&forms);
    assert!(view.probe_save_sensitive());
    let SaveStep::Write(changes) = view.save(&forms) else {
        panic!("there is something to save");
    };
    assert_eq!(changes.len(), 1);
    assert_eq!(changes[0].id, "search");
    assert_eq!(changes[0].accel.as_deref(), Some("<Control>j"));
    assert!(view.saved(Ok(())));
    assert_eq!(view.status, "Saved");
    assert_eq!(view.save(&forms), SaveStep::Nothing);
}

#[test]
fn two_actions_cannot_share_a_shortcut() {
    let mut view = page();
    assert!(view.probe_stage("search", "<Control>q"));
    let forms = vec![Some((2, 4)), Some((2, 4)), Some((3, 4))];
    view.refresh(&forms);
    assert!(!view.probe_save_sensitive());
    assert_eq!(view.probe_conflict_note("search").as_deref(), Some("also used by Do quit"));
    assert_eq!(view.probe_conflict_note("quit").as_deref(), Some("also used by Do search"));
    assert_eq!(view.probe_conflict_note("nothing"), None);
    assert_eq!(view.save(&forms), SaveStep::Refused);
    assert_eq!(view.status, "Resolve the highlighted conflicts first");
}

#[test]
fn a_shortcut_that_cannot_be_used_is_refused() {
    let mut view = page();
    view.begin_capture(1);
    assert_eq!(view.on_capture_key(0xffe1, "", false), CaptureOutcome::Stop);
    assert_eq!(view.rows[1].note, "Modifiers need a key — press the full shortcut");
    assert_eq!(view.on_capture_key('x' as u32, "", false), CaptureOutcome::Stop);
    assert_eq!(view.rows[1].note, "That key can't be bound");
    assert_eq!(view.on_capture_key(0xff1b, "", true), CaptureOutcome::Stop);
    assert_eq!(view.capturing, None);
    assert_eq!(view.on_capture_key('x' as u32, "x", true), CaptureOutcome::Proceed);
}

#[test]
fn backspace_goes_back_to_the_default() {
    let mut view = page();
    assert!(view.probe_capture("quit", 'w' as u32, "<Control>w", true));
    assert_eq!(view.probe_accel("quit"), "<Control>w");
    assert!(view.probe_capture("quit", 0xff08, "BackSpace", true));
    assert_eq!(view.probe_accel("quit"), "<Control>q");
    assert!(!view.probe_capture("quit", 'x' as u32, "", false));
    assert!(!view.probe_capture("nothing", 'x' as u32, "x", true));
    assert_eq!(view.probe_accel("nothing"), "");
    view.reset_all();
    assert_eq!(view.status, "All shortcuts reset to defaults");
}
