//! What holds of the dialogs: who is found by a query and who is chosen, what is
//! accepted when signing in, and what calls, cards and pictures show.

use vstd::prelude::*;

use crate::auth::{
    all_digits, api_id_of, digits_only, has_field, is_api_hash, is_digit, number_of, AuthTexts, AuthView,
    CredentialsForm, Purpose,
};
use crate::avatar::{initials_of, last_gap, scaled_edge, Avatar};
use crate::bots::{begins_with, label_of, offered, CommandPopover};
use crate::call::{
    is_new_call, parts_of, seconds_active, status_of, timer_words, too_late, CallView,
};
use crate::cards::{
    age_words, full_name, live_words, map_of, minutes_between, remaining_words, sharing_ended,
    LivePlan, MapSlot,
};
use crate::clock::Stamp;
use crate::contacts::{ContactsDialog, ListState};
use crate::forward::result_words;
use crate::lists::{lemma_kept, lemma_kept_in_order};
use crate::newgroup::NewGroupDialog;
use crate::text::{
    contains_text, digits, lowercased, trimmed, two_digits, uppercased, white_space,
};
use crate::text_laws::law_trimming_finds_the_text;
use crate::tg::{
    AuthState, BotCommand, CallEndReason, CallInfo, CallPhase, ChatSummary, Contact,
    KeyboardButton, LiveLocation, Location, SharedContact,
};

verus! {

// -------------------------------------------------------------------- finding

/// In the address book people are found by their name, their username and their
/// number, in whatever case, and by nothing else. Without a query all are shown.
pub proof fn law_contacts_are_found(dialog: ContactsDialog, contact: Contact)
    requires
        dialog.contacts@.contains(contact),
    ensures
        ({
            let query = lowercased(trimmed(dialog.search_text@));
            &&& query.len() == 0 ==> dialog.matches().contains(contact)
            &&& query.len() > 0 ==> (dialog.matches().contains(contact) <==> contains_text(
                lowercased(contact.name@),
                query,
            ) || contains_text(lowercased(contact.username@), query) || contains_text(
                lowercased(contact.phone@),
                query,
            ))
        }),
        forall|other: Contact|
            dialog.matches().contains(other) ==> #[trigger] dialog.contacts@.contains(other),
{
    lemma_kept(dialog.contacts@, crate::contacts::found_by(dialog.search_text@));
}

/// Those who may join a group are found by their name and their username.
pub proof fn law_members_are_found(contact: Contact, query: Seq<char>)
    ensures
        lowercased(trimmed(query)).len() == 0 ==> crate::newgroup::found_by(query)(contact),
        lowercased(trimmed(query)).len() > 0 ==> (crate::newgroup::found_by(query)(contact)
            <==> contains_text(lowercased(contact.name@), lowercased(trimmed(query)))
            || contains_text(lowercased(contact.username@), lowercased(trimmed(query)))),
{
}

/// Chats to forward to are found by their title and their username.
pub proof fn law_targets_are_found(chat: ChatSummary, query: Seq<char>)
    ensures
        lowercased(trimmed(query)).len() == 0 ==> crate::forward::found_by(query)(chat),
        lowercased(trimmed(query)).len() > 0 ==> (crate::forward::found_by(query)(chat)
            <==> contains_text(lowercased(chat.title@), lowercased(trimmed(query)))
            || contains_text(lowercased(chat.username@), lowercased(trimmed(query)))),
{
}

/// Who was marked is invited, and nobody else.
pub proof fn law_marked_members_are_invited(contacts: Seq<Contact>, selected: Set<i64>, id: i64)
    ensures
        crate::newgroup::chosen_ids(contacts, selected).contains(id) <==> selected.contains(id)
            && exists|i: int| 0 <= i < contacts.len() && (#[trigger] contacts[i]).user_id == id,
{
    let keep = crate::newgroup::chosen(selected);
    let kept = contacts.filter(keep);
    let ids = crate::newgroup::chosen_ids(contacts, selected);
    lemma_kept(contacts, keep);
    if ids.contains(id) {
        let p = ids.index_of(id);
        assert(kept.contains(kept[p]));
        assert(contacts[contacts.index_of(kept[p])].user_id == id);
    }
    if selected.contains(id) && exists|i: int|
        0 <= i < contacts.len() && (#[trigger] contacts[i]).user_id == id {
        let i = choose|i: int| 0 <= i < contacts.len() && (#[trigger] contacts[i]).user_id == id;
        assert(contacts.contains(contacts[i]));
        assert(kept.contains(contacts[i]));
        assert(ids[kept.index_of(contacts[i])] == id);
    }
}

/// Messages are forwarded to the chats that were marked, and to no others.
pub proof fn law_marked_chats_get_the_message(
    dialogs: Seq<ChatSummary>,
    selected: Set<i64>,
    id: i64,
)
    ensures
        crate::forward::chosen_ids(dialogs, selected).contains(id) <==> selected.contains(id)
            && exists|i: int| 0 <= i < dialogs.len() && (#[trigger] dialogs[i]).id == id,
{
    let keep = crate::forward::chosen(selected);
    let kept = dialogs.filter(keep);
    let ids = crate::forward::chosen_ids(dialogs, selected);
    lemma_kept(dialogs, keep);
    if ids.contains(id) {
        let p = ids.index_of(id);
        assert(kept.contains(kept[p]));
        assert(dialogs[dialogs.index_of(kept[p])].id == id);
    }
    if selected.contains(id) && exists|i: int|
        0 <= i < dialogs.len() && (#[trigger] dialogs[i]).id == id {
        let i = choose|i: int| 0 <= i < dialogs.len() && (#[trigger] dialogs[i]).id == id;
        assert(dialogs.contains(dialogs[i]));
        assert(kept.contains(dialogs[i]));
        assert(ids[kept.index_of(dialogs[i])] == id);
    }
}

/// A name leads to the first of those who have it.
pub proof fn law_names_lead_to_the_first(contacts: Seq<Contact>, name: Seq<char>, i: int)
    requires
        0 <= i < contacts.len(),
        contacts[i].name@ == name,
        forall|j: int| 0 <= j < i ==> (#[trigger] contacts[j]).name@ != name,
    ensures
        crate::contacts::named(contacts, name) == Some(contacts[i].user_id),
    decreases contacts.len(),
{
    if i > 0 {
        assert(contacts[0].name@ != name);
        assert(contacts.drop_first()[i - 1] == contacts[i]);
        assert forall|j: int| 0 <= j < i - 1 implies (#[trigger] contacts.drop_first()[j]).name@
            != name by {
            assert(contacts.drop_first()[j] == contacts[j + 1]);
        }
        law_names_lead_to_the_first(contacts.drop_first(), name, i - 1);
    }
}

/// A title leads to the first chat that has it.
pub proof fn law_titles_lead_to_the_first(dialogs: Seq<ChatSummary>, title: Seq<char>, i: int)
    requires
        0 <= i < dialogs.len(),
        dialogs[i].title@ == title,
        forall|j: int| 0 <= j < i ==> (#[trigger] dialogs[j]).title@ != title,
    ensures
        crate::forward::titled(dialogs, title) == Some(dialogs[i].id),
    decreases dialogs.len(),
{
    if i > 0 {
        assert(dialogs[0].title@ != title);
        assert(dialogs.drop_first()[i - 1] == dialogs[i]);
        assert forall|j: int| 0 <= j < i - 1 implies (#[trigger] dialogs.drop_first()[j]).title@
            != title by {
            assert(dialogs.drop_first()[j] == dialogs[j + 1]);
        }
        law_titles_lead_to_the_first(dialogs.drop_first(), title, i - 1);
    }
}

/// A name that nobody has leads nowhere.
pub proof fn law_unknown_names_lead_nowhere(contacts: Seq<Contact>, name: Seq<char>)
    requires
        forall|j: int| 0 <= j < contacts.len() ==> (#[trigger] contacts[j]).name@ != name,
    ensures
        crate::contacts::named(contacts, name) is None,
    decreases contacts.len(),
{
    if contacts.len() > 0 {
        assert(contacts[0].name@ != name);
        assert forall|j: int|
            0 <= j < contacts.drop_first().len() implies (#[trigger] contacts.drop_first()[j]).name@
            != name by {
            assert(contacts.drop_first()[j] == contacts[j + 1]);
        }
        law_unknown_names_lead_nowhere(contacts.drop_first(), name);
    }
}

/// A group needs a title and a member.
pub proof fn law_groups_need_a_title_and_members(dialog: NewGroupDialog)
    requires
        dialog.well_formed(),
    ensures
        dialog.complete() <==> trimmed(dialog.title@) != Seq::<char>::empty() && exists|id: i64|
            dialog.selected@.contains(id),
{
    if trimmed(dialog.title@).len() == 0 {
        assert(trimmed(dialog.title@) =~= Seq::<char>::empty());
    }
    if dialog.selected@.len() > 0 {
        assert(dialog.selected@.contains(dialog.selected@.choose()));
    }
    if exists|id: i64| dialog.selected@.contains(id) {
        let id = choose|id: i64| dialog.selected@.contains(id);
        assert(dialog.selected@.remove(id).len() + 1 == dialog.selected@.len());
    }
}

/// What came of forwarding is told in numbers, with the reason where something
/// failed.
pub proof fn law_results_are_told(succeeded: int, total: int, error: Seq<char>)
    ensures
        result_words(succeeded, total, Some(error)) == result_words(succeeded, total, None) + (
        " — "@ + error),
        result_words(succeeded, total, None) == digits(succeeded) + " of "@ + digits(total)
            + " forwarded"@,
{
    assert(result_words(succeeded, total, None) =~= digits(succeeded) + " of "@ + digits(total)
        + " forwarded"@);
}

/// A command is offered where it begins with what was written, in whatever case.
pub proof fn law_commands_are_offered(
    commands: Seq<BotCommand>,
    command: BotCommand,
    prefix: Seq<char>,
)
    requires
        commands.contains(command),
    ensures
        offered(commands, prefix).contains(command) <==> lowercased(prefix).len() <= lowercased(
            command.command@,
        ).len() && lowercased(command.command@).take(lowercased(prefix).len() as int)
            == lowercased(prefix),
{
    lemma_kept(commands, begins_with(prefix));
    let (long, short) = (lowercased(command.command@), lowercased(prefix));
    if short.len() <= long.len() {
        assert(long.subrange(0, short.len() as int) =~= long.take(short.len() as int));
    }
}

/// The selection moves by what is said and stops at the ends.
pub proof fn law_selections_stop_at_the_ends(popover: CommandPopover, at: usize)
    requires
        popover.selected == Some(at),
        at < popover.visible@.len() <= i32::MAX,
    ensures
        at + 1 < popover.visible@.len() ==> popover.moved(1) == Some((at + 1) as usize),
        at + 1 == popover.visible@.len() ==> popover.moved(1) == Some(at),
        at > 0 ==> popover.moved(-1) == Some((at - 1) as usize),
        at == 0 ==> popover.moved(-1) == Some(0usize),
        popover.moved(0) == Some(at),
{
}

/// Only a button that leads out of the chat is marked so.
pub proof fn law_links_out_are_marked(button: KeyboardButton)
    ensures
        button.kind is Url ==> label_of(button) == button.text@ + " "@ + crate::icons::EXTERNAL@,
        !(button.kind is Url) ==> label_of(button) == button.text@,
{
}

// ----------------------------------------------------------------- signing in

proof fn lemma_number(value: int)
    requires
        value >= 0,
    ensures
        number_of(digits(value)) == value,
        all_digits(digits(value)),
        digits(value).len() > 0,
    decreases value,
{
    reveal_with_fuel(number_of, 2);
    if value >= 10 {
        lemma_number(value / 10);
        assert(digits(value).drop_last() =~= digits(value / 10));
        assert forall|i: int| 0 <= i < digits(value).len() implies is_digit(
            #[trigger] digits(value)[i],
        ) by {
            if i < digits(value / 10).len() {
                assert(digits(value)[i] == digits(value / 10)[i]);
            }
        }
    } else {
        assert(digits(value).drop_last() =~= Seq::<char>::empty());
    }
}

/// Every number from one up to the largest can be entered, with white space around
/// it or none, and is read as itself.
pub proof fn law_numbers_are_read(front: Seq<char>, value: int, back: Seq<char>)
    requires
        0 <= value,
        forall|i: int| 0 <= i < front.len() ==> white_space(#[trigger] front[i]),
        forall|i: int| 0 <= i < back.len() ==> white_space(#[trigger] back[i]),
    ensures
        api_id_of(front + digits(value) + back) == (if 0 < value <= 0x7fff_ffff {
            Some(value)
        } else {
            None
        }),
{
    lemma_number(value);
    let text = digits(value);
    assert(is_digit(text[0]) && is_digit(text[text.len() - 1]));
    assert(!white_space(text[0]) && !white_space(text.last()));
    law_trimming_finds_the_text(front, text, back);
}

/// What holds anything but digits is no number.
pub proof fn law_only_digits_are_numbers(text: Seq<char>, i: int)
    requires
        0 <= i < trimmed(text).len(),
        !('0' <= trimmed(text)[i] && trimmed(text)[i] <= '9'),
    ensures
        api_id_of(text) is None,
{
}

/// A hash is thirty-two digits to the base sixteen, in either case, and nothing else.
pub proof fn law_hashes_have_thirty_two_digits(text: Seq<char>)
    ensures
        is_api_hash(text) <==> trimmed(text).len() == 32 && forall|i: int|
            #![trigger trimmed(text)[i]]
            0 <= i < trimmed(text).len() ==> {
                let ch = trimmed(text)[i];
                '0' <= ch <= '9' || 'a' <= ch <= 'f' || 'A' <= ch <= 'F'
            },
{
}

/// The form can be sent exactly while its two fields hold what is asked for and
/// nothing is being sent.
pub proof fn law_forms_open_when_complete(form: CredentialsForm)
    requires
        form.well_formed(),
    ensures
        form.submit_sensitive <==> api_id_of(form.id_text@) is Some && is_api_hash(form.hash_text@)
            && !form.busy,
        form.fields_sensitive <==> !form.busy,
{
}

/// Each step of signing in asks for one thing in an empty field, and only a password
/// is hidden.
pub proof fn law_steps_ask_for_one_thing(before: AuthView, after: AuthView, state: AuthState)
    requires
        after.in_step(before, state),
    ensures
        after.state == state,
        !after.busy && after.entry_sensitive && after.button_sensitive,
        after.parts.entry && after.parts.button && !after.parts.credentials && !after.parts.error,
        after.parts.progress && after.parts.field_label && !after.parts.link,
        !after.retry_start && after.error == before.error,
        after.entry_readable <==> state != AuthState::NeedPassword,
        state == AuthState::NeedPhone ==> after.purpose == Purpose::Phone,
        state == AuthState::NeedPassword ==> after.purpose == Purpose::Password,
        state == AuthState::NeedCode ==> after.purpose == Purpose::FreeForm,
        state == AuthState::NeedPhone || state == AuthState::NeedCode || state
            == AuthState::NeedPassword ==> after.entry_text@.len() == 0 && !after.button_retries,
        state == AuthState::NeedPhone ==> after.texts.title@ == "Sign in"@
            && after.texts.field_label@ == "Phone number"@,
        state == AuthState::NeedCode ==> after.texts.title@ == "Verification code"@
            && after.texts.field_label@ == "Telegram code"@,
        state == AuthState::NeedPassword ==> after.texts.title@ == "Two-step verification"@
            && after.texts.field_label@ == "Two-step verification password"@,
        after.creds == before.creds,
        has_field(state) <==> state != AuthState::NeedCredentials && state != AuthState::Ready,
{
}

// ---------------------------------------------------------------------- calls

/// A call shows a timer while it is active and its state before and after. It can be
/// taken only while it comes in, and hung up while it is being made.
pub proof fn law_calls_show_their_phase(phase: CallPhase, emojis: bool)
    ensures
        ({
            let parts = parts_of(phase, emojis);
            &&& parts.timer <==> phase == CallPhase::Active
            &&& parts.status <==> phase != CallPhase::Active
            &&& parts.active_actions <==> phase == CallPhase::Active
            &&& parts.incoming_actions <==> phase == CallPhase::Incoming
            &&& parts.hang_up <==> phase == CallPhase::Requesting || phase == CallPhase::Exchanging
                || phase == CallPhase::Connecting
            &&& parts.emojis <==> phase == CallPhase::Active && emojis
            &&& parts.caption <==> phase == CallPhase::Active && emojis
        }),
        status_of(CallPhase::Incoming, None) == "Incoming voice call"@,
        status_of(CallPhase::Requesting, None) == "Calling…"@,
        status_of(CallPhase::Exchanging, None) == "Exchanging keys…"@,
        status_of(CallPhase::Connecting, None) == "Connecting…"@,
        status_of(CallPhase::Ended, Some(CallEndReason::Declined)) == "Declined"@,
        status_of(CallPhase::Ended, Some(CallEndReason::Missed)) == "Missed"@,
        status_of(CallPhase::Ended, Some(CallEndReason::Failed)) == "Call failed"@,
        status_of(CallPhase::Ended, Some(CallEndReason::Hangup)) == "Call ended"@,
        status_of(CallPhase::Ended, None) == "Call ended"@,
{
}

/// The timer shows minutes and seconds since the call was taken.
pub proof fn law_timers_count_from_the_start(minutes: int, seconds: int, start: Stamp, now: Stamp)
    requires
        0 <= minutes,
        0 <= seconds < 60,
    ensures
        minutes < 100 ==> timer_words(60 * minutes + seconds) == two_digits(minutes) + ":"@
            + two_digits(seconds),
        minutes >= 100 ==> timer_words(60 * minutes + seconds) == digits(minutes) + ":"@
            + two_digits(seconds),
        seconds_active(None, now) == 0,
        seconds_active(Some(start), now) >= 0,
        now.secs() >= start.secs() && now.nanos() == start.nanos() ==> seconds_active(
            Some(start),
            now,
        ) == now.secs() - start.secs(),
        now.secs() <= start.secs() && now.nanos() == start.nanos() ==> seconds_active(
            Some(start),
            now,
        ) == 0,
{
    assert((60 * minutes + seconds) / 60 == minutes);
    assert((60 * minutes + seconds) % 60 == seconds);
    let passed = now.secs() - start.secs();
    if now.nanos() == start.nanos() {
        assert(now.instant() - start.instant() == passed * 1_000_000_000);
    }
}

/// A call is a new one where there was none, where the one before has ended, and
/// where both have ids and these differ.
pub proof fn law_new_calls_are_told_apart(before: CallInfo, info: CallInfo)
    ensures
        is_new_call(None, info),
        before.phase == CallPhase::Ended ==> is_new_call(Some(before), info),
        before.id != 0 && info.id != 0 && before.id != info.id ==> is_new_call(Some(before), info),
        before.phase != CallPhase::Ended && (before.id == 0 || info.id == 0 || before.id
            == info.id) ==> !is_new_call(Some(before), info),
        too_late(None, info) <==> info.phase == CallPhase::Ended,
        !too_late(Some(before), info),
{
}

/// What comes in of a call is shown: who calls, in which phase, and for how long.
pub proof fn law_calls_show_what_comes_in(
    before: CallView,
    after: CallView,
    info: CallInfo,
    now: Stamp,
)
    requires
        after.updated(before, info, now),
    ensures
        after.open,
        after.current == Some(info),
        after.name@ == info.peer_name@,
        after.timer_running <==> info.phase == CallPhase::Active,
        info.phase == CallPhase::Active ==> after.mute.pressed == info.muted
            && after.mute.offers_unmute == info.muted && after.emojis@ == info.emojis@,
        info.phase == CallPhase::Ended ==> after.close_pending == Some(after.generation),
        info.phase == CallPhase::Incoming && before.ringtone_enabled && !before.probe
            ==> after.ringing,
        info.phase != CallPhase::Incoming ==> !after.ringing,
        info.phase == CallPhase::Incoming && !before.ringing && !before.ringtone_enabled
            ==> !after.ringing,
        after.parts == parts_of(info.phase, info.emojis@.len() > 0),
{
}

/// A closed call leaves nothing running.
pub proof fn law_closed_calls_are_quiet(before: CallView, after: CallView)
    requires
        after.cleared(before),
    ensures
        !after.open && after.current is None && !after.timer_running && !after.ringing,
        after.close_pending is None,
        after.generation == before.generation,
{
}

// ---------------------------------------------------------------------- cards

/// A place is shared until it is stopped or its time is over.
pub proof fn law_sharing_ends_in_time(live: LiveLocation, now: Stamp, outgoing: bool)
    requires
        now.nanos() == live.expires.nanos(),
    ensures
        sharing_ended(live, now) <==> live.stopped || now.secs() > live.expires.secs(),
        live.stopped ==> live_words(live, outgoing, now) == "Sharing ended"@,
{
    assert(now.instant() > live.expires.instant() <==> now.secs() > live.expires.secs());
}

/// How long a place is shared still is told in minutes, rounded up to hours from an
/// hour on, and how old it is in minutes or full hours.
pub proof fn law_times_of_sharing_are_told(minutes: int, hours: int)
    requires
        0 <= minutes < 60,
        1 <= hours,
    ensures
        minutes <= 1 ==> remaining_words(minutes) == "1 min"@,
        minutes > 1 ==> remaining_words(minutes) == digits(minutes) + " min"@,
        minutes == 0 ==> remaining_words(60 * hours + minutes) == digits(hours) + " hr"@,
        minutes > 0 ==> remaining_words(60 * hours + minutes) == digits(hours + 1) + " hr"@,
        minutes < 1 ==> age_words(minutes) == "just now"@,
        minutes >= 1 ==> age_words(minutes) == digits(minutes) + " min ago"@,
        age_words(60 * hours + minutes) == digits(hours) + " hr ago"@,
{
    if minutes == 0 {
        assert((60 * hours + 59) / 60 == hours);
    } else {
        assert((60 * hours + minutes + 59) / 60 == hours + 1);
    }
    assert((60 * hours + minutes) / 60 == hours);
}

/// Own places tell how long they are shared still, those of others how old they are.
pub proof fn law_live_places_are_told(live: LiveLocation, now: Stamp)
    requires
        !sharing_ended(live, now),
    ensures
        live_words(live, true, now) == "Live · sharing for "@ + remaining_words(
            minutes_between(now, live.expires),
        ),
        live_words(live, false, now) == "Live · updated "@ + age_words(
            minutes_between(live.last_update, now),
        ),
{
}

/// Minutes are counted in full, from the earlier point in time to the later.
pub proof fn law_minutes_are_full(from: Stamp, to: Stamp)
    requires
        from.nanos() == to.nanos(),
    ensures
        to.secs() <= from.secs() ==> minutes_between(from, to) == 0,
        to.secs() >= from.secs() ==> 60 * minutes_between(from, to) <= to.secs() - from.secs() < 60
            * (minutes_between(from, to) + 1),
{
    let passed = to.secs() - from.secs();
    assert(to.instant() - from.instant() == passed * 1_000_000_000);
}

/// A map is fetched where maps are wanted and the place is still shared.
pub proof fn law_maps_are_fetched_where_wanted(location: Location, map_tiles: bool)
    ensures
        !map_tiles <==> map_of(location, map_tiles) == MapSlot::Glyph,
        map_tiles && location.live is None ==> map_of(location, map_tiles) == MapSlot::Loading,
        map_tiles && location.live is Some ==> (map_of(location, map_tiles) == MapSlot::Unavailable
            <==> location.live->0.stopped),
        map_tiles && location.live is Some ==> (map_of(location, map_tiles) == MapSlot::Loading
            <==> !location.live->0.stopped),
{
}

/// A contact's name is both names, in order.
pub proof fn law_names_are_put_together(contact: SharedContact)
    ensures
        full_name(contact) == contact.first_name@ + " "@ + contact.last_name@,
{
}

// ------------------------------------------------------------------- pictures

/// A picture is scaled to the smallest edge that still covers the square.
pub proof fn law_scaling_is_tight(longer: int, shorter: int, target: int)
    requires
        1 <= shorter <= longer,
        1 <= target,
    ensures
        shorter * scaled_edge(longer, shorter, target) >= longer * target,
        shorter * (scaled_edge(longer, shorter, target) - 1) < longer * target,
{
    let total = longer * target + shorter - 1;
    assert(longer * target >= 1) by (nonlinear_arith)
        requires
            longer >= 1,
            target >= 1,
    ;
    let edge = scaled_edge(longer, shorter, target);
    assert(edge == total / shorter);
    vstd::arithmetic::div_mod::lemma_fundamental_div_mod(total, shorter);
    vstd::arithmetic::div_mod::lemma_mod_bound(total, shorter);
    assert(shorter * edge == total - total % shorter);
    assert(shorter * (edge - 1) == shorter * edge - shorter) by (nonlinear_arith);
}

proof fn lemma_last_gap(text: Seq<char>)
    ensures
        -1 <= last_gap(text) < text.len(),
        last_gap(text) >= 0 ==> white_space(text[last_gap(text)]),
        forall|i: int| last_gap(text) < i < text.len() ==> !white_space(#[trigger] text[i]),
    decreases text.len(),
{
    if text.len() > 0 && !white_space(text.last()) {
        lemma_last_gap(text.drop_last());
        assert forall|i: int| last_gap(text) < i < text.len() implies !white_space(
            #[trigger] text[i],
        ) by {
            if i < text.len() - 1 {
                assert(text.drop_last()[i] == text[i]);
            }
        }
    }
}

/// The initials of two names or more are the first letters of the first and of the
/// last one, those of a single name its first two letters. Nothing has a question
/// mark.
pub proof fn law_initials_are_first_letters(
    first: Seq<char>,
    gap: char,
    last: Seq<char>,
)
    requires
        first.len() > 0,
        last.len() > 0,
        !white_space(first[0]),
        white_space(gap),
        forall|i: int| 0 <= i < last.len() ==> !white_space(#[trigger] last[i]),
    ensures
        initials_of(first.push(gap) + last) == uppercased(first[0]) + uppercased(last[0]),
        last.len() > 1 ==> initials_of(last) == uppercased(last[0]) + uppercased(last[1]),
        last.len() == 1 ==> initials_of(last) == uppercased(last[0]),
        initials_of(Seq::empty()) == "?"@,
        initials_of(seq![gap]) == "?"@,
{
    let none = Seq::<char>::empty();
    let name = first.push(gap) + last;
    assert(last[last.len() - 1] == last.last());
    assert(none + name + none =~= name);
    assert(none + last + none =~= last);
    assert(name.last() == last.last());
    law_trimming_finds_the_text(none, name, none);
    law_trimming_finds_the_text(none, last, none);
    lemma_last_gap(name);
    lemma_last_gap(last);
    assert(name[first.len() as int] == gap);
    assert forall|i: int| first.len() < i < name.len() implies !white_space(
        #[trigger] name[i],
    ) by {
        assert(name[i] == last[i - first.len() - 1]);
    }
    assert(last_gap(name) == first.len());
    assert(name[first.len() as int + 1] == last[0]);
    crate::text_laws::law_blank_texts_are_trimmed_away(none);
    crate::text_laws::law_blank_texts_are_trimmed_away(seq![gap]);
    assert(uppercased(last[0]) + none =~= uppercased(last[0]));
}

/// A picture takes the color of its id and the initials of its name, and shows no
/// photo until one comes.
pub proof fn law_pictures_belong_to_their_id(
    before: Avatar,
    after: Avatar,
    id: i64,
    name: Seq<char>,
)
    requires
        after.bound(before, id, name),
    ensures
        after.key == id,
        after.color < 7,
        (id - after.color) % 7 == 0,
        !after.shows_photo,
        after.size == before.size,
        after.generation != before.generation,
        after.letters@ == initials_of(name),
{
}

/// The steps say which come before and after, and what to enter.
pub proof fn law_steps_say_what_to_enter(texts: AuthTexts)
    ensures
        texts.of_step(AuthState::NeedPhone) ==> texts.progress@
            == "1 · Phone   →   2 · Code   →   3 · Password if needed"@ && texts.hint@
            == "Enter your phone number with country code."@ && texts.placeholder@ == "+123456789"@,
        texts.of_step(AuthState::NeedCode) ==> texts.progress@
            == "2 · Code   →   3 · Password if needed"@ && texts.hint@
            == "Check Telegram on a device where you are signed in, or the delivery method Telegram offers for your account."@
            && texts.placeholder@ == "Code"@,
        texts.of_step(AuthState::NeedPassword) ==> texts.progress@ == "3 · Password"@ && texts.hint@
            == "Enter your Telegram password."@ && texts.placeholder@ == "Password"@,
{
}

/// A card of a place that is shared no more is plain: it has no buttons and asks for
/// no more updates.
pub proof fn law_ended_cards_are_plain(
    plan: LivePlan,
    live: LiveLocation,
    outgoing: bool,
    now: Stamp,
)
    requires
        plan.tells(live, outgoing, now),
    ensures
        live.stopped ==> plan.line@ == "Sharing ended"@ && !plan.accent && !plan.own_buttons
            && !plan.timer,
        !sharing_ended(live, now) ==> plan.accent && plan.timer && plan.own_buttons == outgoing,
{
}

/// The address book says that it is empty, or that nobody was found.
pub proof fn law_empty_lists_say_why(dialog: ContactsDialog, before: ListState)
    requires
        dialog.noted(before),
    ensures
        dialog.contacts@.len() == 0 ==> dialog.state.text@ == "No contacts"@ && dialog.state.visible,
        dialog.contacts@.len() > 0 && dialog.matches().len() == 0 ==> dialog.state.text@
            == "No results"@ && dialog.state.visible,
        dialog.matches().len() > 0 ==> !dialog.state.visible,
        !dialog.state.error,
        dialog.state.spinner == before.spinner && dialog.state.retry == before.retry,
{
    if dialog.contacts@.len() == 0 {
        dialog.contacts@.lemma_filter_len(crate::contacts::found_by(dialog.search_text@));
    }
    if dialog.matches().len() > 0 {
        dialog.contacts@.lemma_filter_len(crate::contacts::found_by(dialog.search_text@));
    }
}

/// The line of a list says what it was told to.
pub proof fn law_lines_say_what_they_are_told(
    state: ListState,
    text: Seq<char>,
    visible: bool,
    error: bool,
    spinner: bool,
    retry: bool,
)
    ensures
        state.shows(text, visible, error, spinner, retry) <==> state.text@ == text && state.visible
            == visible && state.error == error && state.spinner == spinner && state.retry == retry,
{
}

/// An answer is taken while the dialog is open and it is the one that was asked for.
pub proof fn law_open_dialogs_take_answers(
    contacts: ContactsDialog,
    group: NewGroupDialog,
    generation: u64,
)
    ensures
        contacts.awaits(generation) <==> contacts.open && contacts.generation == generation,
        group.awaits(generation) <==> group.open && group.generation == generation,
{
}

/// Those who are invited stand in the order of the list.
pub proof fn law_members_keep_their_order(contacts: Seq<Contact>, selected: Set<i64>, i: int, j: int) -> (
    places: (int, int))
    requires
        0 <= i < j < contacts.len(),
        selected.contains(contacts[i].user_id),
        selected.contains(contacts[j].user_id),
    ensures
        0 <= places.0 < places.1 < crate::newgroup::chosen_ids(contacts, selected).len(),
        crate::newgroup::chosen_ids(contacts, selected)[places.0] == contacts[i].user_id,
        crate::newgroup::chosen_ids(contacts, selected)[places.1] == contacts[j].user_id,
{
    lemma_kept_in_order(contacts, crate::newgroup::chosen(selected), i, j)
}

/// The chats that a message is forwarded to stand in the order of the list.
pub proof fn law_targets_keep_their_order(dialogs: Seq<ChatSummary>, selected: Set<i64>, i: int, j: int) -> (
    places: (int, int))
    requires
        0 <= i < j < dialogs.len(),
        selected.contains(dialogs[i].id),
        selected.contains(dialogs[j].id),
    ensures
        0 <= places.0 < places.1 < crate::forward::chosen_ids(dialogs, selected).len(),
        crate::forward::chosen_ids(dialogs, selected)[places.0] == dialogs[i].id,
        crate::forward::chosen_ids(dialogs, selected)[places.1] == dialogs[j].id,
{
    lemma_kept_in_order(dialogs, crate::forward::chosen(selected), i, j)
}

/// Commands are offered in the order in which the bot lists them.
pub proof fn law_commands_keep_their_order(commands: Seq<BotCommand>, prefix: Seq<char>, i: int, j: int) -> (
    places: (int, int))
    requires
        0 <= i < j < commands.len(),
        offered(commands, prefix).contains(commands[i]),
        offered(commands, prefix).contains(commands[j]),
    ensures
        0 <= places.0 < places.1 < offered(commands, prefix).len(),
        offered(commands, prefix)[places.0] == commands[i],
        offered(commands, prefix)[places.1] == commands[j],
{
    lemma_kept(commands, begins_with(prefix));
    lemma_kept_in_order(commands, begins_with(prefix), i, j)
}

/// People are shown in the order of the address book.
pub proof fn law_contacts_keep_their_order(dialog: ContactsDialog, i: int, j: int) -> (places: (
    int,
    int,
))
    requires
        0 <= i < j < dialog.contacts@.len(),
        dialog.matches().contains(dialog.contacts@[i]),
        dialog.matches().contains(dialog.contacts@[j]),
    ensures
        0 <= places.0 < places.1 < dialog.matches().len(),
        dialog.matches()[places.0] == dialog.contacts@[i],
        dialog.matches()[places.1] == dialog.contacts@[j],
{
    let keep = crate::contacts::found_by(dialog.search_text@);
    lemma_kept(dialog.contacts@, keep);
    lemma_kept_in_order(dialog.contacts@, keep, i, j)
}

/// A call that goes on keeps its number, and says in words what it does unless it
/// is active.
pub proof fn law_calls_keep_their_number(
    before: CallView,
    after: CallView,
    info: CallInfo,
    now: Stamp,
)
    requires
        after.updated(before, info, now),
    ensures
        before.current matches Some(earlier) && earlier.phase != CallPhase::Ended && earlier.id
            == info.id ==> after.generation == before.generation,
        before.current is None ==> after.generation != before.generation,
        info.phase != CallPhase::Active ==> after.status@ == status_of(info.phase, info.end_reason),
        info.phase == CallPhase::Active ==> after.timer@ == timer_words(
            seconds_active(info.connected_at, now),
        ),
        info.phase != CallPhase::Active ==> after.timer@ == before.timer@ && after.mute
            == before.mute,
        after.avatar.key == info.peer_id,
        after.probe == before.probe && after.ringtone_enabled == before.ringtone_enabled,
        after.ringtone_loud && !before.ringtone_loud ==> info.phase == CallPhase::Incoming
            && before.ringtone_enabled && !before.probe,
{
}

/// A picture that was not bound yet is empty.
pub proof fn law_unbound_pictures_are_empty(avatar: Avatar, size: i32)
    requires
        avatar.unbound(size),
    ensures
        avatar.size == size && avatar.key == 0 && avatar.generation == 0,
        avatar.letters@.len() == 0 && avatar.color == 0 && !avatar.shows_photo,
{
}

/// Of what is entered as a number only the digits stay, all of them.
pub proof fn law_only_digits_stay(text: Seq<char>, ch: char)
    ensures
        text.filter(digits_only()).contains(ch) <==> text.contains(ch) && '0' <= ch && ch <= '9',
        (forall|i: int| 0 <= i < text.len() ==> '0' <= #[trigger] text[i] && text[i] <= '9')
            ==> text.filter(digits_only()) == text,
{
    lemma_kept(text, digits_only());
    if forall|i: int| 0 <= i < text.len() ==> '0' <= #[trigger] text[i] && text[i] <= '9' {
        lemma_all_stay(text);
    }
}

proof fn lemma_all_stay(text: Seq<char>)
    requires
        forall|i: int| 0 <= i < text.len() ==> '0' <= #[trigger] text[i] && text[i] <= '9',
    ensures
        text.filter(digits_only()) == text,
    decreases text.len(),
{
    reveal(Seq::filter);
    if text.len() > 0 {
        assert forall|i: int| 0 <= i < text.drop_last().len() implies '0'
            <= #[trigger] text.drop_last()[i] && text.drop_last()[i] <= '9' by {
            assert(text.drop_last()[i] == text[i]);
        }
        lemma_all_stay(text.drop_last());
        assert('0' <= text[text.len() - 1] && text[text.len() - 1] <= '9');
        assert(text.filter(digits_only()) =~= text);
    }
}

/// Without a selection the first row is where the selection starts from.
pub proof fn law_selections_start_at_the_first(popover: CommandPopover)
    requires
        popover.selected is None,
        0 < popover.visible@.len() <= i32::MAX,
    ensures
        popover.moved(0) == Some(0usize),
        popover.moved(-1) == Some(0usize),
        popover.visible@.len() > 1 ==> popover.moved(1) == Some(1usize),
{
}

} // verus!
