//! What holds of the panels beside a conversation: profiles and shared media, the
//! keyboard settings, and the choice of a place.

use vstd::prelude::*;

use crate::clock::Stamp;
use crate::info_panel::{
    holds, joined, key_of, last_id, presence_words, shared_words, status_words, Binding,
    LoadLine, Profile,
};
use crate::keys::{conflicts_of, in_conflict};
use crate::keys_view::{
    compared, is_change, labels, of_group, partners, place_of, plain_row, row_refreshed, rows_for,
    shown, staged, staged_rows, CaptureOutcome, KeyAction, KeyChange, KeyRow, KeysView,
};
use crate::lists::lemma_kept;
use crate::locationdialog::{
    clamped_zoom, failure_words, seconds_of_choice, GeoPoint, LocationDialog, MapState, SendLabel,
};
use crate::text::{decimal, digits, minutes_text, two_digits};
use crate::tg::{ChatInfo, ChatKind, ChatSummary, Msg, Presence, SharedKind};

verus! {

// ------------------------------------------------------------------- profiles

/// A page of shared messages is added behind the ones that are shown, each message
/// once, and none is lost.
pub proof fn law_pages_are_joined(messages: Seq<Msg>, page: Seq<Msg>, given: int)
    requires
        0 <= given <= page.len(),
    ensures
        joined(messages, page, given).len() >= messages.len(),
        joined(messages, page, given).take(messages.len() as int) == messages,
        forall|j: int|
            0 <= j < given ==> exists|i: int|
                0 <= i < joined(messages, page, given).len() && (#[trigger] joined(
                    messages,
                    page,
                    given,
                )[i]).id == (#[trigger] page[j]).id,
        forall|i: int|
            messages.len() <= i < joined(messages, page, given).len() ==> exists|j: int|
                0 <= j < given && #[trigger] page[j] == #[trigger] joined(messages, page, given)[i],
    decreases given,
{
    let all = joined(messages, page, given);
    if given > 0 {
        law_pages_are_joined(messages, page, given - 1);
        let earlier = joined(messages, page, given - 1);
        let msg = page[given - 1];
        assert(all.take(messages.len() as int) =~= earlier.take(messages.len() as int));
        assert forall|j: int| 0 <= j < given implies exists|i: int|
            0 <= i < all.len() && (#[trigger] all[i]).id == (#[trigger] page[j]).id by {
            if j < given - 1 {
                let i = choose|i: int|
                    0 <= i < earlier.len() && (#[trigger] earlier[i]).id == page[j].id;
                assert(all[i] == earlier[i]);
            } else if holds(earlier, msg.id) {
                let at = choose|at: int|
                    0 <= at < earlier.len() && (#[trigger] earlier[at]).id == msg.id;
                assert(all[at].id == page[j].id);
            } else {
                assert(all[earlier.len() as int].id == page[j].id);
            }
        }
        assert forall|i: int| messages.len() <= i < all.len() implies exists|j: int|
            0 <= j < given && #[trigger] page[j] == #[trigger] all[i] by {
            if i < earlier.len() {
                assert(all[i] == earlier[i]);
                let j = choose|j: int| 0 <= j < given - 1 && #[trigger] page[j] == earlier[i];
                assert(page[j] == all[i]);
            } else {
                assert(page[given - 1] == all[i]);
            }
        }
    } else {
        assert(messages.take(messages.len() as int) =~= messages);
    }
}

/// The next page begins behind the last message that is shown.
pub proof fn law_pages_go_on_from_the_last(messages: Seq<Msg>, msg: Msg)
    ensures
        last_id(messages.push(msg)) == Some(msg.id),
        last_id(Seq::empty()) is None,
{
}

/// An answer is taken only for the chat, the request and the tab that asked for it.
pub proof fn law_answers_are_for_who_asked(
    binding: Binding,
    chat_id: i64,
    generation: u64,
    shared_generation: u64,
    kind: SharedKind,
)
    ensures
        binding.matches(chat_id, generation) <==> binding.chat == Some(chat_id)
            && binding.generation == generation,
        binding.shared_matches(chat_id, generation, shared_generation, kind) <==> binding.chat
            == Some(chat_id) && binding.generation == generation && binding.shared_generation
            == shared_generation && binding.shared_kind == kind,
{
}

/// A profile says of a user when they were seen and of a group how many there are.
pub proof fn law_profiles_tell_of_their_chat(info: ChatInfo, now: Stamp)
    ensures
        info.kind == ChatKind::Bot ==> status_words(info, now) == "bot"@,
        info.kind == ChatKind::Saved ==> status_words(info, now) == "saved messages"@,
        info.kind == ChatKind::User ==> status_words(info, now) == presence_words(
            info.presence,
            now,
        ),
        info.kind == ChatKind::Group && info.members is Some ==> status_words(info, now) == decimal(
            info.members->0 as int,
        ) + " members"@,
        info.kind == ChatKind::Channel && info.members is Some ==> status_words(info, now)
            == decimal(info.members->0 as int) + " subscribers"@,
        info.kind == ChatKind::Group && info.members is None ==> status_words(info, now) == decimal(
            0,
        ) + " members"@,
        presence_words(Presence::Online, now) == "online"@,
        presence_words(Presence::Recently, now) == "last seen recently"@,
        presence_words(Presence::LastWeek, now) == "last seen within a week"@,
        presence_words(Presence::LastMonth, now) == "last seen within a month"@,
        presence_words(Presence::LongAgo, now) == "last seen a long time ago"@,
        presence_words(Presence::Unknown, now) == "status unknown"@,
        info.presence matches Presence::LastSeen(time) ==> presence_words(info.presence, now) == (if
        time.calendar() == now.calendar() {
            "last seen at "@ + two_digits(time.hour()) + ":"@ + two_digits(time.minute())
        } else {
            "last seen "@ + (two_digits(time.calendar().day()) + "."@ + two_digits(
                time.calendar().month(),
            ) + "."@ + two_digits(time.calendar().year() % 100))
        }),
{
}

/// A row of shared media says the file's name, the link's address or the length of
/// the recording.
pub proof fn law_shared_rows_say_what_they_are(msg: Msg)
    ensures
        msg.doc_name is Some ==> shared_words(SharedKind::Files, msg) == crate::icons::FILE@ + "  "@
            + msg.doc_name->0@,
        msg.doc_name is None ==> shared_words(SharedKind::Files, msg) == crate::icons::FILE@ + "  "@
            + "File"@,
        msg.webpage is Some ==> shared_words(SharedKind::Links, msg) == crate::icons::LINK@ + "  "@
            + msg.webpage->0@,
        msg.webpage is None ==> shared_words(SharedKind::Links, msg) == crate::icons::LINK@ + "  "@
            + msg.text@,
        msg.duration is Some ==> shared_words(SharedKind::Voice, msg) == crate::icons::MIC@ + "  "@
            + ("Voice message · "@ + minutes_text(msg.duration->0 as int)),
        msg.duration is None ==> shared_words(SharedKind::Voice, msg) == crate::icons::MIC@ + "  "@
            + "Voice message"@,
        shared_words(SharedKind::Photos, msg) == crate::icons::FILE@ + "  "@ + msg.text@,
        shared_words(SharedKind::Music, msg) == crate::icons::FILE@ + "  "@ + msg.text@,
{
}

/// A profile shows what is known of the chat and leaves out what is not.
pub proof fn law_profiles_leave_out_what_is_missing(
    before: Profile,
    after: Profile,
    info: ChatInfo,
    show_avatars: bool,
    now: Stamp,
)
    requires
        after.filled(before, info, show_avatars, now),
    ensures
        after.title@ == info.title@,
        after.username_shown <==> info.username@.len() > 0,
        after.phone_shown <==> info.phone@.len() > 0,
        after.about_shown <==> info.about@.len() > 0,
        info.username@.len() > 0 ==> after.username@ == "@"@ + info.username@,
        after.phone@ == info.phone@ && after.about@ == info.about@,
        after.notifications <==> !info.muted,
        after.photo_shown == show_avatars && after.photo_enabled == info.has_photo,
        after.status@ == status_words(info, now),
        after.avatar.key == info.id,
{
}

/// While a profile is loaded it shows what the list of chats knows, and nothing of
/// the chat before it.
pub proof fn law_new_profiles_hide_the_old(
    before: Profile,
    after: Profile,
    chat: ChatSummary,
    show_avatars: bool,
)
    requires
        after.bound(before, chat, show_avatars),
    ensures
        after.title@ == chat.title@,
        after.status@ == "Loading…"@,
        !after.username_shown && !after.phone_shown && !after.about_shown,
        after.notifications <==> !chat.muted,
        after.avatar.key == chat.id,
{
}

// ------------------------------------------------------------------ shortcuts

/// A row shows the shortcut that waits to be saved, else the one that is stored.
pub proof fn law_rows_show_what_waits(row: KeyRow)
    ensures
        row.pending is Some ==> shown(row) == row.pending->0@,
        row.pending is None ==> shown(row) == row.stored@,
{
}

/// A row for an action begins with what is stored for it.
pub proof fn law_rows_begin_plain(row: KeyRow, action: KeyAction)
    requires
        plain_row(row, action),
    ensures
        row.id == action.id && row.label == action.label && row.group == action.group,
        row.stored == action.stored && row.default == action.default,
        shown(row) == action.stored@,
        !row.typing && !row.note_visible && !row.accel_conflict,
{
}

/// What changes is saved: a shortcut as it was typed, or none where it is the
/// default again.
pub proof fn law_changes_are_saved(change: KeyChange, row: KeyRow)
    requires
        is_change(change, row),
    ensures
        row.pending is Some,
        change.id == row.id,
        row.pending->0@ == row.default@ ==> change.accel is None,
        row.pending->0@ != row.default@ ==> change.accel == row.pending,
{
}

/// The rows that are saved are those that were changed.
pub proof fn law_changed_rows_are_saved(rows: Seq<KeyRow>, row: KeyRow)
    ensures
        staged_rows(rows).contains(row) <==> rows.contains(row) && row.pending is Some,
        staged(rows) <==> staged_rows(rows).len() > 0,
{
    let keep = |one: KeyRow| one.pending is Some;
    lemma_kept(rows, keep);
    assert(staged_rows(rows) == rows.filter(keep));
    if staged(rows) {
        let i = choose|i: int| 0 <= i < rows.len() && (#[trigger] rows[i]).pending is Some;
        assert(rows.contains(rows[i]));
        assert(staged_rows(rows).contains(rows[i]));
    }
    if staged_rows(rows).len() > 0 {
        let one = staged_rows(rows)[0];
        assert(staged_rows(rows).contains(one));
        assert(rows[rows.index_of(one)].pending is Some);
    }
}

/// An id leads to the first row that has it.
pub proof fn law_ids_lead_to_their_row(rows: Seq<KeyRow>, id: Seq<char>)
    ensures
        place_of(rows, id) matches Some(at) ==> 0 <= at < rows.len() && rows[at].id@ == id
            && forall|i: int| 0 <= i < at ==> (#[trigger] rows[i]).id@ != id,
        place_of(rows, id) is None ==> forall|i: int|
            0 <= i < rows.len() ==> (#[trigger] rows[i]).id@ != id,
    decreases rows.len(),
{
    if rows.len() > 0 {
        let rest = rows.drop_last();
        law_ids_lead_to_their_row(rest, id);
        assert forall|i: int|
            0 <= i < rest.len() && place_of(rest, id) is None implies (#[trigger] rows[i]).id@
            != id by {
            assert(rest[i] == rows[i]);
        }
        if place_of(rest, id) is Some {
            let at = place_of(rest, id)->0;
            assert(rows[at] == rest[at]);
            assert forall|i: int| 0 <= i < at implies (#[trigger] rows[i]).id@ != id by {
                assert(rest[i] == rows[i]);
            }
        }
    }
}

/// Names are put together with commas.
pub proof fn law_names_are_listed(rows: Seq<KeyRow>, at: Seq<int>, last: int)
    ensures
        labels(rows, Seq::empty()) == Seq::<char>::empty(),
        labels(rows, seq![last]) == rows[last].label@,
        at.len() > 0 ==> labels(rows, at.push(last)) == labels(rows, at) + ", "@
            + rows[last].label@,
{
    assert(at.push(last).drop_last() =~= at);
}

/// Typing a shortcut: Escape leaves all as it was, Backspace brings back the default,
/// a modifier alone or an unusable key is refused, and any other shortcut waits to be
/// saved. No other row changes.
pub proof fn law_typed_shortcuts_wait(
    before: KeysView,
    after: KeysView,
    at: int,
    key: u32,
    accel: Seq<char>,
    valid: bool,
    outcome: CaptureOutcome,
)
    requires
        0 <= at < before.rows@.len(),
        after.captured(before, at, key, accel, valid, outcome),
    ensures
        after.rows@.len() == before.rows@.len(),
        forall|i: int|
            0 <= i < before.rows@.len() && i != at ==> (#[trigger] after.rows@[i]).pending
                == before.rows@[i].pending,
        key == 0xff1b ==> after.capturing is None && after.rows@[at].pending
            == before.rows@[at].pending && outcome is Stop,
        key == 0xff08 ==> after.capturing is None && after.rows@[at].pending == Some(
            before.rows@[at].default,
        ) && outcome is Staged,
        0xffe1 <= key <= 0xffee ==> after.capturing == before.capturing && after.rows@[at].pending
            == before.rows@[at].pending && outcome is Stop,
        key != 0xff1b && key != 0xff08 && (accel.len() == 0 || !valid) ==> after.rows@[at].pending
            == before.rows@[at].pending && outcome is Stop,
        0xffe1 <= key <= 0xffee ==> after.rows@[at].note_visible && after.rows@[at].note@
            == "Modifiers need a key — press the full shortcut"@,
        key < 0xfe03 && (accel.len() == 0 || !valid) ==> after.rows@[at].note_visible
            && after.rows@[at].note@ == "That key can't be bound"@,
        key == 0xff_ffff ==> after.rows@[at].pending == before.rows@[at].pending && outcome is Stop,
        key < 0xfe03 && accel.len() > 0 && valid ==> outcome is Staged && after.capturing is None
            && after.rows@[at].pending is Some && after.rows@[at].pending->0@ == accel,
{
}

/// A row that shares its shortcut says with whom, and nothing is saved meanwhile.
pub proof fn law_conflicts_stop_saving(
    before: KeysView,
    after: KeysView,
    forms: Seq<Option<(u32, u32)>>,
    i: int,
    j: int,
)
    requires
        before.rows@.len() <= usize::MAX,
        after.refreshed(before, forms),
        0 <= i < j < before.rows@.len(),
        before.rows@[i].group@ == before.rows@[j].group@,
        forms[i] is Some,
        forms[i] == forms[j],
    ensures
        !after.save_sensitive,
        after.status_visible,
        after.status@ == "Resolve the highlighted conflicts first"@,
        after.capturing == before.capturing,
        after.rows@[i].accel_conflict && after.rows@[j].accel_conflict,
        after.rows@[i].note_visible && after.rows@[j].note_visible,
{
    let rows = compared(before.rows@, forms);
    let count = rows.len() as int;
    crate::keys::law_conflicts_are_complete(rows, count, i as usize, j as usize);
    assert(in_conflict(rows, i, j));
    assert(conflicts_of(rows, count).len() > 0);
    crate::keys_view::law_rivals_are_mutual(rows, i, j, count);
    assert(partners(rows, i, count).len() > 0);
    assert(partners(rows, j, count).len() > 0);
    assert(row_refreshed(
        before.rows@[i],
        after.rows@[i],
        before.capturing == Some(i as usize),
        true,
        labels(before.rows@, partners(rows, i, count)),
    ));
    assert(row_refreshed(
        before.rows@[j],
        after.rows@[j],
        before.capturing == Some(j as usize),
        true,
        labels(before.rows@, partners(rows, j, count)),
    ));
}

/// Where no two rows of a group share a shortcut, changes can be saved.
pub proof fn law_changes_without_conflicts_can_be_saved(
    before: KeysView,
    after: KeysView,
    forms: Seq<Option<(u32, u32)>>,
)
    requires
        before.rows@.len() <= usize::MAX,
        after.refreshed(before, forms),
        forall|i: int, j: int|
            #![trigger before.rows@[i], before.rows@[j]]
            0 <= i < j < before.rows@.len() && before.rows@[i].group@ == before.rows@[j].group@
                && forms[i] is Some ==> forms[i] != forms[j],
    ensures
        after.save_sensitive <==> exists|i: int|
            0 <= i < before.rows@.len() && (#[trigger] before.rows@[i]).pending is Some,
        before.status@ == "Resolve the highlighted conflicts first"@ ==> !after.status_visible,
        before.status@ != "Resolve the highlighted conflicts first"@ ==> after.status_visible
            == before.status_visible,
        after.status@ == before.status@,
{
    let rows = compared(before.rows@, forms);
    let count = rows.len() as int;
    let found = conflicts_of(rows, count);
    if found.len() > 0 {
        let (a, b) = found[0];
        assert(found.contains((a, b)));
        crate::keys::law_conflicts_are_complete(rows, count, a, b);
        assert(before.rows@[a as int].group@ == before.rows@[b as int].group@);
    }
}

// --------------------------------------------------------------------- places

/// A place is shared for a quarter of an hour, an hour or eight hours, or not live.
pub proof fn law_places_are_shared_for_a_time(choice: u32)
    ensures
        choice == 1 ==> seconds_of_choice(choice) == Some(900u32),
        choice == 2 ==> seconds_of_choice(choice) == Some(3600u32),
        choice == 3 ==> seconds_of_choice(choice) == Some(28800u32),
        choice == 0 || choice > 3 ==> seconds_of_choice(choice) is None,
{
}

/// The map goes no nearer and no farther than it can.
pub proof fn law_zoom_stays_in_range(zoom: int)
    ensures
        3 <= clamped_zoom(zoom) <= 17,
        3 <= zoom <= 17 ==> clamped_zoom(zoom) == zoom,
        zoom < 3 ==> clamped_zoom(zoom) == 3,
        zoom > 17 ==> clamped_zoom(zoom) == 17,
{
}

/// A map that is loaded anew waits for nine tiles, and is hidden where no maps are
/// wanted.
pub proof fn law_maps_wait_for_their_tiles(map: MapState, loaded: bool)
    ensures
        map.tiles_enabled ==> map.refreshed().pending == 9 && map.refreshed().failures == 0
            && map.refreshed().grid_visible,
        !map.tiles_enabled ==> map.refreshed().pending == 0 && map.refreshed().failures == 0
            && !map.refreshed().grid_visible,
        map.refreshed().zoom == map.zoom,
        map.pending > 0 ==> map.after_tile(loaded).pending == map.pending - 1,
        map.after_tile(true).failures == map.failures,
        map.failures < usize::MAX ==> map.after_tile(false).failures == map.failures + 1,
{
}

/// What a map complains of names how many tiles are missing.
pub proof fn law_missing_tiles_are_named(failures: int)
    ensures
        failure_words(failures) == "Map unavailable ("@ + digits(failures)
            + " of 9 tiles failed). You can still send or change the point to retry."@,
{
}

/// A place that is shared already is updated, any other one sent.
pub proof fn law_buttons_say_what_they_do(dialog: LocationDialog)
    ensures
        dialog.is_update ==> dialog.idle_label() == SendLabel::Update,
        !dialog.is_update ==> dialog.idle_label() == SendLabel::Send,
{
}

/// Typing a shortcut begins in one row, which says how to stop. All else stays.
pub proof fn law_typing_begins_in_one_row(before: KeysView, after: KeysView, at: int, i: int)
    requires
        after.capture_begun(before, at),
        0 <= at < before.rows@.len() <= usize::MAX,
        0 <= i < before.rows@.len(),
    ensures
        after.capturing == Some(at as usize),
        after.rows@[at].typing && after.rows@[at].note_visible && !after.rows@[at].note_conflict,
        after.rows@[at].note@ == "Esc cancels · Backspace resets to default"@,
        after.rows@[at].pending == before.rows@[at].pending,
        i != at ==> after.rows@[i] == before.rows@[i],
        after.save_sensitive == before.save_sensitive && after.status == before.status,
{
}

/// Coming to rest changes nothing but that nobody types, and discarding what waits
/// changes nothing but that.
pub proof fn law_rows_come_to_rest(rows: Seq<KeyRow>, i: int)
    requires
        0 <= i < rows.len(),
    ensures
        KeysView::at_rest(rows).len() == rows.len(),
        KeysView::at_rest(rows)[i] == (KeyRow { typing: false, ..rows[i] }),
        KeysView::unstaged(rows).len() == rows.len(),
        KeysView::unstaged(rows)[i] == (KeyRow { pending: None, ..rows[i] }),
        !staged(KeysView::unstaged(rows)),
{
}

/// A new point clears what was complained of and loads its map.
pub proof fn law_new_points_load_their_map(
    dialog: LocationDialog,
    before: MapState,
    point: GeoPoint,
    typed: Option<GeoPoint>,
)
    requires
        dialog.at_point(before, point, typed),
    ensures
        dialog.point == point && dialog.typed == typed,
        !dialog.error_visible && !dialog.map_error_visible,
        dialog.send_sensitive <==> !dialog.busy,
        before.tiles_enabled ==> dialog.map.pending == 9 && dialog.map.generation
            != before.generation,
        dialog.map.zoom == before.zoom,
{
}

/// The line of a list says what it was told to.
pub proof fn law_lines_say_what_they_are_told(
    line: LoadLine,
    text: Seq<char>,
    visible: bool,
    error: bool,
    spinner: bool,
    retry: bool,
    more: bool,
)
    ensures
        line.shows(text, visible, error, spinner, retry, more) <==> line.text@ == text
            && line.visible == visible && line.error == error && line.spinner == spinner
            && line.retry == retry && line.more == more,
{
}

/// In a sound dialog the zoom is in its range and no more than nine tiles are counted.
pub proof fn law_places_are_sound(dialog: LocationDialog)
    requires
        dialog.well_formed(),
    ensures
        3 <= dialog.map.zoom <= 17,
        dialog.map.pending + dialog.map.failures <= 9,
{
}

/// A row that is looked at again says with whom it shares its shortcut, and falls
/// silent when it does no more, unless a shortcut is being typed there.
pub proof fn law_rows_say_with_whom_they_share(
    before: KeyRow,
    after: KeyRow,
    capturing: bool,
    conflict: bool,
    names: Seq<char>,
)
    requires
        row_refreshed(before, after, capturing, conflict, names),
    ensures
        after.accel_conflict == conflict,
        conflict ==> after.note@ == "also used by "@ + names && after.note_visible
            && after.note_conflict,
        !conflict && !capturing ==> !after.note_visible && !after.note_conflict,
        !conflict && capturing ==> after.note_visible == before.note_visible && after.note
            == before.note,
        after.pending == before.pending && after.stored == before.stored && after.id == before.id,
{
}

/// Joining a page keeps each message once.
pub proof fn law_shared_messages_stay_apart(messages: Seq<Msg>, page: Seq<Msg>, given: int)
    requires
        0 <= given <= page.len(),
        forall|i: int, j: int|
            0 <= i < j < messages.len() ==> (#[trigger] messages[i]).id != (
            #[trigger] messages[j]).id,
    ensures
        forall|i: int, j: int|
            0 <= i < j < joined(messages, page, given).len() ==> (#[trigger] joined(
                messages,
                page,
                given,
            )[i]).id != (#[trigger] joined(messages, page, given)[j]).id,
    decreases given,
{
    if given > 0 {
        law_shared_messages_stay_apart(messages, page, given - 1);
        let earlier = joined(messages, page, given - 1);
        let all = joined(messages, page, given);
        assert forall|i: int, j: int| 0 <= i < j < all.len() implies (#[trigger] all[i]).id != (
        #[trigger] all[j]).id by {
            if j < earlier.len() {
                assert(all[i] == earlier[i] && all[j] == earlier[j]);
            } else {
                assert(!holds(earlier, page[given - 1].id));
                assert(earlier[i].id != page[given - 1].id);
            }
        }
    }
}

/// A group shows the actions that belong to it, each with its own row.
pub proof fn law_groups_show_their_actions(
    actions: Seq<KeyAction>,
    action: KeyAction,
    group: Seq<char>,
    rows: Seq<KeyRow>,
    i: int,
)
    requires
        rows_for(rows, actions),
        0 <= i < actions.len(),
    ensures
        actions.filter(of_group(group)).contains(action) <==> actions.contains(action)
            && action.group@ == group,
        rows.len() == actions.len(),
        rows[i].id == actions[i].id && rows[i].label == actions[i].label && rows[i].stored
            == actions[i].stored && rows[i].pending is None,
{
    lemma_kept(actions, of_group(group));
    assert(plain_row(rows[i], actions[i]));
}

/// The kinds of shared media are called by their keys.
pub proof fn law_shared_kinds_have_their_keys(kind: SharedKind)
    ensures
        kind == SharedKind::Photos ==> key_of(kind) == "photos"@,
        kind == SharedKind::Files ==> key_of(kind) == "files"@,
        kind == SharedKind::Links ==> key_of(kind) == "links"@,
        kind == SharedKind::Voice ==> key_of(kind) == "voice"@,
        kind == SharedKind::Music ==> key_of(kind) == "music"@,
{
}

/// A profile that shows no chat yet says nothing.
pub proof fn law_blank_profiles_say_nothing(profile: Profile)
    requires
        profile.blank(),
    ensures
        profile.title@.len() == 0 && profile.status@.len() == 0,
        profile.username@.len() == 0 && profile.phone@.len() == 0 && profile.about@.len() == 0,
        profile.avatar.size == 96 && profile.avatar.key == 0,
        !profile.notifications,
{
}

/// A shortcut that is typed at once waits to be saved as one that is typed after the
/// row was opened.
pub proof fn law_shortcuts_can_be_typed_at_once(
    before: KeysView,
    after: KeysView,
    at: int,
    key: u32,
    accel: Seq<char>,
    valid: bool,
)
    requires
        0 <= at < before.rows@.len(),
        after.typed_at_once(before, at, key, accel, valid),
    ensures
        after.rows@.len() == before.rows@.len(),
        key == 0xff1b ==> after.capturing is None && after.rows@[at].pending
            == before.rows@[at].pending,
        key == 0xff08 ==> after.capturing is None && after.rows@[at].pending == Some(
            before.rows@[at].default,
        ),
        key < 0xfe03 && accel.len() > 0 && valid ==> after.capturing is None
            && after.rows@[at].pending is Some && after.rows@[at].pending->0@ == accel,
        key < 0xfe03 && (accel.len() == 0 || !valid) ==> after.rows@[at].pending
            == before.rows@[at].pending,
        forall|i: int|
            0 <= i < before.rows@.len() && i != at ==> (#[trigger] after.rows@[i]).pending
                == before.rows@[i].pending,
{
    let (begun, outcome) = choose|begun: KeysView, outcome: CaptureOutcome|
        {
            &&& begun.capture_begun(before, at)
            &&& #[trigger] after.captured(begun, at, key, accel, valid, outcome)
        };
    law_typed_shortcuts_wait(begun, after, at, key, accel, valid, outcome);
    assert forall|i: int|
        0 <= i < before.rows@.len() && i != at implies (#[trigger] after.rows@[i]).pending
        == before.rows@[i].pending by {
        assert(begun.rows@[i] == before.rows@[i]);
    }
}

} // verus!
