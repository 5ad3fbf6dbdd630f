//! What holds of writing and reading in a conversation: what is quoted, what an edit
//! leaves behind, how the list scrolls, and what the menus offer.

use vstd::prelude::*;

use crate::anim::effects::Effect;
use crate::anim::ticks::Effects;
use crate::clock::Stamp;
use crate::lists::lemma_kept;
use crate::menus::ChatAction;
use crate::messages::changes::{is_reaction_step, ReactionStep};
use crate::messages::composer::{
    end_of, known_name, reply_text, shortened, Composer, EditLabel,
};
use crate::messages::history::{
    divides, quote_text, quoted, replied_to, reply_bar_refreshed, rising, scroll_after_event,
    sticks,
};
use crate::messages::media::{
    aux_texts, failed, line_contains, lines_of_others, may_start, waiting_for, waiting_for_others,
    with_entry,
};
use crate::messages::modes::{clamped_cursor, edit_source, editable, restored};
use crate::messages::query::{context_items, header_items, ContextItem};
use crate::messages::status::{info_status, summary_status, typing_text};
use crate::messages::store::{ascending, lemma_one_place, MediaState, MessageEntry};
use crate::messages::view::{AuxLine, Header, MessagesView, Notice, Scroll, Waiting};
use crate::text::{contains_text, decimal};
use crate::tg::{ChatKind, MediaKind, Msg, MuteMode, Presence, Reaction};

verus! {

// -------------------------------------------------------------------- writing

/// A text is cut after so many characters and marked where it was cut; a short one
/// stays as it is.
pub proof fn law_long_texts_are_cut(text: Seq<char>, max_chars: int)
    requires
        0 <= max_chars,
    ensures
        text.len() <= max_chars ==> shortened(text, max_chars) == text,
        text.len() > max_chars ==> shortened(text, max_chars).len() == max_chars + 1 && shortened(
            text,
            max_chars,
        ).take(max_chars) == text.take(max_chars) && shortened(text, max_chars)[max_chars] == '…',
{
    reveal_strlit("…");
    if text.len() > max_chars {
        assert(shortened(text, max_chars).take(max_chars) =~= text.take(max_chars));
    }
}

/// A quote names its sender and begins with the first sixty characters.
pub proof fn law_replies_name_their_sender(sender: Seq<char>, text: Seq<char>)
    ensures
        sender.len() > 0 && text.len() <= 60 ==> reply_text(sender, text) == "Reply to "@ + sender
            + ": "@ + text,
        sender.len() == 0 && text.len() <= 60 ==> reply_text(sender, text)
            == "Reply to "@ + "Unknown"@ + ": "@ + text,
        sender.len() > 0 && text.len() > 60 ==> reply_text(sender, text) == "Reply to "@ + sender
            + ": "@ + (text.take(60) + "…"@),
        known_name(sender) == (if sender.len() == 0 {
            "Unknown"@
        } else {
            sender
        }),
{
}

/// The cursor stays within the text.
pub proof fn law_cursors_stay_in_the_text(cursor: int, text: Seq<char>)
    requires
        text.len() <= i32::MAX,
    ensures
        0 <= clamped_cursor(cursor, text) <= text.len(),
        0 <= cursor <= text.len() ==> clamped_cursor(cursor, text) == cursor,
        cursor < 0 ==> clamped_cursor(cursor, text) == 0,
        cursor > text.len() ==> clamped_cursor(cursor, text) == text.len(),
        end_of(text) == text.len(),
{
}

/// Own messages with a text and without a file can be edited, and no others. What is
/// edited is the text with its formatting spelled out, where there is any.
pub proof fn law_own_texts_can_be_edited(msg: Msg)
    ensures
        editable(msg) <==> msg.outgoing && msg.text@.len() != 0 && msg.media is None,
        msg.markdown@.len() > 0 ==> edit_source(msg) == msg.markdown@,
        msg.markdown@.len() == 0 ==> edit_source(msg) == msg.text@,
{
}

/// Leaving an edit brings back what was written before, with the cursor at its end,
/// and keeps what is replied to.
pub proof fn law_edits_give_way_to_the_draft(before: Composer, after: Composer)
    requires
        after.left_edit(before),
    ensures
        !after.edit_bar,
        after.edit is None,
        after.reply_to == before.reply_to,
        after.reply_bar == before.reply_bar,
        before.edit is None ==> after.text == before.text && after.cursor == before.cursor,
        before.edit is Some ==> after.text@ == before.edit->0.draft@,
        before.edit is Some && before.edit->0.draft@.len() <= i32::MAX ==> after.cursor
            == before.edit->0.draft@.len(),
{
}

/// Letting go of a reply touches nothing of the text.
pub proof fn law_replies_are_let_go(composer: Composer)
    ensures
        composer.without_reply().reply_to is None,
        !composer.without_reply().reply_bar,
        composer.without_reply().text == composer.text,
        composer.without_reply().cursor == composer.cursor,
        composer.without_reply().edit == composer.edit,
        composer.without_reply().ai_draft == composer.ai_draft,
{
}

/// What is kept as a draft is what the user wrote: not the text of an edit, and not
/// what was suggested.
pub proof fn law_drafts_are_the_users_own(composer: Composer)
    ensures
        composer.ai_draft ==> composer.plain_text() == Seq::<char>::empty(),
        !composer.ai_draft && composer.edit is Some ==> composer.plain_text()
            == composer.edit->0.draft@,
        !composer.ai_draft && composer.edit is None ==> composer.plain_text() == composer.text@,
{
}

/// A draft that is brought back is neither an edit nor a suggestion, and shows what
/// it replies to.
pub proof fn law_restored_drafts_are_plain(
    composer: Composer,
    text: Seq<char>,
    reply_to: Option<i32>,
    cursor: int,
)
    requires
        restored(composer, text, reply_to, cursor),
    ensures
        composer.text@ == text,
        composer.reply_to == reply_to,
        composer.reply_bar <==> reply_to is Some,
        composer.edit is None && !composer.edit_bar && !composer.ai_draft,
        0 <= cursor <= text.len() <= i32::MAX ==> composer.cursor == cursor,
{
}

// --------------------------------------------------------------------- quotes

/// A quote shows the message as the list has it, else as it was fetched, and says so
/// where it is not known at all.
pub proof fn law_quotes_show_what_is_known(view: MessagesView, id: i32)
    ensures
        view.knows(id) ==> quoted(view, id) == Some(
            (view.entry(id).msg.sender@, view.entry(id).msg.text@),
        ),
        !view.knows(id) && view.quote_cache@.contains_key(id) ==> quoted(view, id) == Some(
            (view.quote_cache@[id].sender@, view.quote_cache@[id].text@),
        ),
        !view.knows(id) && !view.quote_cache@.contains_key(id) ==> quoted(view, id) is None
            && quote_text(view, id) == "replied message"@,
        view.knows(id) && view.entry(id).msg.sender@.len() > 0 && view.entry(id).msg.text@.len()
            <= 60 ==> quote_text(view, id) == view.entry(id).msg.sender@ + ": "@ + view.entry(
            id,
        ).msg.text@,
        view.knows(id) && view.entry(id).msg.sender@.len() == 0 && view.entry(id).msg.text@.len()
            > 60 ==> quote_text(view, id) == "Unknown"@ + ": "@ + (view.entry(id).msg.text@.take(60)
            + "…"@),
{
}

/// A message is replied to where some message says so.
pub proof fn law_replies_are_seen(entries: Seq<MessageEntry>, id: i32, i: int)
    requires
        0 <= i < entries.len(),
    ensures
        entries[i].msg.reply_to == Some(id) ==> replied_to(entries, id),
        replied_to(entries, id) ==> exists|j: int|
            0 <= j < entries.len() && (#[trigger] entries[j]).msg.reply_to == Some(id),
{
}

// ------------------------------------------------------------------ scrolling

/// The list stays at the bottom while the user is there and the latest messages are
/// shown.
pub proof fn law_lists_stick_at_the_bottom(scroll: Scroll, outgoing: bool, divider_on: bool)
    ensures
        sticks(scroll) <==> scroll.stick_to_bottom && !scroll.detached,
        divides(scroll, outgoing, divider_on) <==> !outgoing && divider_on
            && !scroll.unread_divider_shown && !(scroll.stick_to_bottom && !scroll.detached),
{
}

/// A message that comes in while the user reads elsewhere is counted; an own message,
/// and one that comes in at the bottom, is not.
pub proof fn law_missed_messages_are_counted(
    scroll: Scroll,
    outgoing: bool,
    divider_on: bool,
    inserted: bool,
)
    ensures
        ({
            let after = scroll_after_event(scroll, outgoing, divider_on, inserted);
            let away = !scroll.stick_to_bottom || scroll.detached;
            &&& !outgoing && away && inserted && scroll.bottom_unread < u32::MAX
                ==> after.bottom_unread == scroll.bottom_unread + 1 && after.bottom_badge
            &&& outgoing || !away || !inserted ==> after.bottom_unread == scroll.bottom_unread
                && after.bottom_badge == scroll.bottom_badge
            &&& !outgoing && away && divider_on ==> after.unread_divider_shown
            &&& outgoing || !away || !divider_on ==> after.unread_divider_shown
                == scroll.unread_divider_shown
            &&& !away ==> after.suppress_paging
            &&& away ==> after.suppress_paging == scroll.suppress_paging
            &&& after.stick_to_bottom == scroll.stick_to_bottom
            &&& after.detached == scroll.detached
            &&& after.epoch == scroll.epoch
            &&& after.paging == scroll.paging
            &&& after.exhausted == scroll.exhausted
        }),
{
}

/// While a chat is being opened the list waits, at the bottom, for its first page.
pub proof fn law_opened_chats_wait(before: Scroll, epoch: u64)
    ensures
        ({
            let after = MessagesView::loading_scroll(before, epoch);
            &&& after.epoch == epoch
            &&& after.spinner && after.placeholder_visible
            &&& after.stick_to_bottom && after.suppress_paging
            &&& !after.paging && !after.exhausted && !after.unread_divider_shown
        }),
{
}

// ---------------------------------------------------------------------- files

/// A file is asked for once: again only where asking failed and may be repeated.
pub proof fn law_files_are_asked_for(entry: MessageEntry)
    ensures
        may_start(entry) <==> entry.media_state == MediaState::NotStarted || (entry.media_state
            == MediaState::Failed && entry.media_retryable),
{
}

/// A file that failed is marked so. The button of a recording or a document can be
/// used again only where asking may be repeated; pictures have no button.
pub proof fn law_failed_files_are_marked(entry: MessageEntry, retryable: bool)
    ensures
        failed(entry, retryable).media_state == MediaState::Failed,
        failed(entry, retryable).media_retryable == retryable,
        failed(entry, retryable).msg == entry.msg,
        may_start(failed(entry, retryable)) == retryable,
        entry.msg.media == Some(MediaKind::Voice) || entry.msg.media == Some(MediaKind::Document)
            ==> failed(entry, retryable).media_unavailable && failed(entry, retryable).media_enabled
            == retryable,
        entry.msg.media != Some(MediaKind::Voice) && entry.msg.media != Some(MediaKind::Document)
            ==> failed(entry, retryable).media_unavailable == entry.media_unavailable && failed(
            entry,
            retryable,
        ).media_enabled == entry.media_enabled,
{
}

/// The lines below a message are those of that message, and removing them leaves
/// those of all others.
pub proof fn law_lines_belong_to_messages(
    lines: Seq<AuxLine>,
    line: AuxLine,
    id: i32,
    needle: Seq<char>,
)
    ensures
        lines_of_others(lines, id).contains(line) <==> lines.contains(line) && line.id != id,
        lines.contains(line) && line.id == id && contains_text(line.text@, needle) ==> line_contains(
            lines,
            id,
            needle,
        ),
        line_contains(lines, id, needle) ==> exists|i: int|
            0 <= i < lines.len() && (#[trigger] lines[i]).id == id && contains_text(
                lines[i].text@,
                needle,
            ),
{
    lemma_kept(lines, |one: AuxLine| one.id != id);
    if lines.contains(line) && line.id == id && contains_text(line.text@, needle) {
        assert(lines[lines.index_of(line)] == line);
    }
}

/// Who waits for a file waits for that file alone.
pub proof fn law_waiting_is_for_one_file(waiting: Seq<Waiting>, one: Waiting, id: i32)
    ensures
        waiting_for(waiting, id).contains(one) <==> waiting.contains(one) && one.id == id,
        waiting_for_others(waiting, id).contains(one) <==> waiting.contains(one) && one.id != id,
{
    lemma_kept(waiting, |other: Waiting| other.id == id);
    lemma_kept(waiting, |other: Waiting| other.id != id);
}

/// Each text that was made of a message says what it is, and they stand in one order.
pub proof fn law_extra_lines_say_what_they_are(
    transcript: &str,
    translation: &str,
    summary: &str,
)
    ensures
        aux_texts(None, None, None) == Seq::<Seq<char>>::empty(),
        aux_texts(Some(transcript), None, None) == seq!["transcript: "@ + transcript@],
        aux_texts(None, Some(translation), None) == seq!["translation: "@ + translation@],
        aux_texts(None, None, Some(summary)) == seq!["summary: "@ + summary@],
        aux_texts(Some(transcript), Some(translation), Some(summary)) == seq![
            "transcript: "@ + transcript@,
            "translation: "@ + translation@,
            "summary: "@ + summary@,
        ],
{
    assert(aux_texts(Some(transcript), None, None) =~= seq!["transcript: "@ + transcript@]);
    assert(aux_texts(None, Some(translation), None) =~= seq!["translation: "@ + translation@]);
    assert(aux_texts(None, None, Some(summary)) =~= seq!["summary: "@ + summary@]);
}

// ---------------------------------------------------------------------- menus

/// What the menu of a message offers depends on whose it is, on what it holds and on
/// what is switched on.
pub proof fn law_menus_offer_what_can_be_done(
    msg: Msg,
    virtual_chat: bool,
    edit_history: bool,
    ai_enabled: bool,
)
    ensures
        ({
            let items = context_items(msg, virtual_chat, edit_history, ai_enabled);
            let plain = !virtual_chat && !msg.deleted;
            &&& items.len() > 0 && items[0] == ContextItem::Copy
            &&& items.len() == 1 <==> !plain
            &&& items.contains(ContextItem::CopyMessageId) <==> plain
            &&& items.contains(ContextItem::Reply) <==> plain
            &&& items.contains(ContextItem::CopyUserId) <==> plain && msg.sender_id is Some
            &&& items.contains(ContextItem::EditHistory) <==> plain && msg.edited && edit_history
            &&& items.contains(ContextItem::DraftReply) <==> plain && ai_enabled
            &&& items.contains(ContextItem::Translate) <==> plain && ai_enabled && msg.text@.len()
                > 0
            &&& items.contains(ContextItem::Summarize) <==> plain && ai_enabled && msg.text@.len()
                > 300
            &&& items.contains(ContextItem::Edit) <==> plain && msg.outgoing && msg.media is None
                && msg.text@.len() > 0
            &&& items.contains(ContextItem::Delete) <==> plain && msg.outgoing
        }),
{
    let items = context_items(msg, virtual_chat, edit_history, ai_enabled);
    if virtual_chat || msg.deleted {
        assert(items[0] == ContextItem::Copy);
    } else {
        lemma_menu(msg, edit_history, ai_enabled);
    }
}

proof fn lemma_listed(front: Seq<ContextItem>, back: Seq<ContextItem>, item: ContextItem)
    ensures
        (front + back).contains(item) <==> front.contains(item) || back.contains(item),
{
    let all = front + back;
    if all.contains(item) {
        let p = all.index_of(item);
        if p < front.len() {
            assert(front[p] == item);
        } else {
            assert(back[p - front.len()] == item);
        }
    }
    if front.contains(item) {
        assert(all[front.index_of(item)] == item);
    }
    if back.contains(item) {
        assert(all[front.len() + back.index_of(item)] == item);
    }
}

proof fn lemma_offered(item: ContextItem, wanted: bool, other: ContextItem)
    ensures
        crate::messages::query::offered(item, wanted).contains(other) <==> wanted && item == other,
{
    if wanted && item == other {
        assert(crate::messages::query::offered(item, wanted)[0] == other);
    }
}

proof fn lemma_menu_item(msg: Msg, edit_history: bool, ai_enabled: bool, item: ContextItem)
    requires
        !msg.deleted,
    ensures
        context_items(msg, false, edit_history, ai_enabled).contains(item) <==> (match item {
            ContextItem::Copy | ContextItem::CopyMessageId | ContextItem::Reply => true,
            ContextItem::CopyUserId => msg.sender_id is Some,
            ContextItem::EditHistory => msg.edited && edit_history,
            ContextItem::DraftReply => ai_enabled,
            ContextItem::Translate => ai_enabled && msg.text@.len() > 0,
            ContextItem::Summarize => ai_enabled && msg.text@.len() > 300,
            ContextItem::Edit => msg.outgoing && msg.media is None && msg.text@.len() > 0,
            ContextItem::Delete => msg.outgoing,
        }),
{
    let a = seq![ContextItem::Copy, ContextItem::CopyMessageId];
    let b = crate::messages::query::offered(ContextItem::CopyUserId, msg.sender_id is Some);
    let c = crate::messages::query::offered(ContextItem::EditHistory, msg.edited && edit_history);
    let d = crate::messages::query::offered(ContextItem::DraftReply, ai_enabled);
    let e = crate::messages::query::offered(
        ContextItem::Translate,
        ai_enabled && msg.text@.len() > 0,
    );
    let f = crate::messages::query::offered(
        ContextItem::Summarize,
        ai_enabled && msg.text@.len() > 300,
    );
    let g = seq![ContextItem::Reply];
    let h = crate::messages::query::offered(ContextItem::Edit, editable(msg));
    let k = crate::messages::query::offered(ContextItem::Delete, msg.outgoing);
    assert(a[0] == ContextItem::Copy && a[1] == ContextItem::CopyMessageId && g[0]
        == ContextItem::Reply);
    assert(a.contains(item) <==> item == ContextItem::Copy || item == ContextItem::CopyMessageId);
    assert(g.contains(item) <==> item == ContextItem::Reply);
    lemma_listed(a, b, item);
    lemma_listed(a + b, c, item);
    lemma_listed(a + b + c, d, item);
    lemma_listed(a + b + c + d, e, item);
    lemma_listed(a + b + c + d + e, f, item);
    lemma_listed(a + b + c + d + e + f, g, item);
    lemma_listed(a + b + c + d + e + f + g, h, item);
    lemma_listed(a + b + c + d + e + f + g + h, k, item);
    lemma_offered(ContextItem::CopyUserId, msg.sender_id is Some, item);
    lemma_offered(ContextItem::EditHistory, msg.edited && edit_history, item);
    lemma_offered(ContextItem::DraftReply, ai_enabled, item);
    lemma_offered(ContextItem::Translate, ai_enabled && msg.text@.len() > 0, item);
    lemma_offered(ContextItem::Summarize, ai_enabled && msg.text@.len() > 300, item);
    lemma_offered(ContextItem::Edit, editable(msg), item);
    lemma_offered(ContextItem::Delete, msg.outgoing, item);
}

proof fn lemma_menu(msg: Msg, edit_history: bool, ai_enabled: bool)
    requires
        !msg.deleted,
    ensures
        ({
            let items = context_items(msg, false, edit_history, ai_enabled);
            &&& items.len() > 1
            &&& items[0] == ContextItem::Copy
            &&& items.contains(ContextItem::CopyMessageId)
            &&& items.contains(ContextItem::Reply)
            &&& items.contains(ContextItem::CopyUserId) <==> msg.sender_id is Some
            &&& items.contains(ContextItem::EditHistory) <==> msg.edited && edit_history
            &&& items.contains(ContextItem::DraftReply) <==> ai_enabled
            &&& items.contains(ContextItem::Translate) <==> ai_enabled && msg.text@.len() > 0
            &&& items.contains(ContextItem::Summarize) <==> ai_enabled && msg.text@.len() > 300
            &&& items.contains(ContextItem::Edit) <==> msg.outgoing && msg.media is None
                && msg.text@.len() > 0
            &&& items.contains(ContextItem::Delete) <==> msg.outgoing
        }),
{
    lemma_menu_item(msg, edit_history, ai_enabled, ContextItem::CopyMessageId);
    lemma_menu_item(msg, edit_history, ai_enabled, ContextItem::Reply);
    lemma_menu_item(msg, edit_history, ai_enabled, ContextItem::CopyUserId);
    lemma_menu_item(msg, edit_history, ai_enabled, ContextItem::EditHistory);
    lemma_menu_item(msg, edit_history, ai_enabled, ContextItem::DraftReply);
    lemma_menu_item(msg, edit_history, ai_enabled, ContextItem::Translate);
    lemma_menu_item(msg, edit_history, ai_enabled, ContextItem::Summarize);
    lemma_menu_item(msg, edit_history, ai_enabled, ContextItem::Edit);
    lemma_menu_item(msg, edit_history, ai_enabled, ContextItem::Delete);
}

/// The menu of a chat's header turns around what the chat is set to.
pub proof fn law_header_menus_turn_settings_around(muted: bool, pinned: bool)
    ensures
        header_items(muted, pinned).len() == 8,
        header_items(muted, pinned)[0].1 == ChatAction::Search,
        muted ==> header_items(muted, pinned)[1] == ("Unmute"@, ChatAction::Mute(MuteMode::Unmute), false),
        !muted ==> header_items(muted, pinned)[1] == ("Mute"@, ChatAction::Mute(MuteMode::Forever), false),
        pinned ==> header_items(muted, pinned)[2] == ("Unpin"@, ChatAction::Pin(false), false),
        !pinned ==> header_items(muted, pinned)[2] == ("Pin"@, ChatAction::Pin(true), false),
        header_items(muted, pinned)[3] == ("Mark as unread"@, ChatAction::MarkUnread(true), false),
        header_items(muted, pinned)[4] == ("Jump to date"@, ChatAction::JumpToDate, false),
        header_items(muted, pinned)[5] == ("Clear history"@, ChatAction::ClearHistory, true),
        header_items(muted, pinned)[6] == ("Delete chat"@, ChatAction::Delete, true),
        header_items(muted, pinned)[7] == ("Chat info"@, ChatAction::Info, false),
{
}

// --------------------------------------------------------------------- status

/// What the header says of a chat that is not a user's.
pub proof fn law_headers_tell_of_their_chat(
    kind: ChatKind,
    members: Option<i32>,
    presence: Presence,
    now: Stamp,
)
    ensures
        kind == ChatKind::User ==> info_status(kind, members, presence, now) == summary_status(
            kind,
            presence,
            now,
        ) && info_status(kind, members, presence, now)
            == crate::messages::rows::presence_label(presence, now),
        kind == ChatKind::Bot ==> info_status(kind, members, presence, now) == "bot"@
            && summary_status(kind, presence, now) == "bot"@,
        kind == ChatKind::Saved ==> info_status(kind, members, presence, now) == "saved messages"@
            && summary_status(kind, presence, now) == "saved messages"@,
        kind == ChatKind::Group || kind == ChatKind::Channel ==> summary_status(kind, presence, now)
            == Seq::<char>::empty(),
        (kind == ChatKind::Group || kind == ChatKind::Channel) && members is None ==> info_status(
            kind,
            members,
            presence,
            now,
        ) == Seq::<char>::empty(),
        kind == ChatKind::Group && members is Some ==> info_status(kind, members, presence, now)
            == decimal(members->0 as int) + " members"@,
        kind == ChatKind::Channel && members is Some ==> info_status(kind, members, presence, now)
            == decimal(members->0 as int) + " subscribers"@,
{
}

/// Somebody who types is named where the name is known. When they stop, the header
/// says again what it said before.
pub proof fn law_typing_is_told(header: Header, typing: Header, after: Header, name: Seq<char>)
    requires
        typing.types(header, name),
        after.stops_typing(typing),
    ensures
        name.len() > 0 ==> typing.status@ == name + " is typing…"@,
        name.len() == 0 ==> typing.status@ == "typing…"@,
        typing.typing && !after.typing,
        typing.base_status == header.base_status,
        after.status@ == header.base_status@,
        typing.title == header.title && after.title == header.title,
        typing_text(name) == typing.status@,
{
}

/// A new status is shown at once, unless somebody types.
pub proof fn law_status_waits_for_typing(
    before: Header,
    after: Header,
    status: Seq<char>,
    online: bool,
)
    requires
        after.has_status(before, status, online),
    ensures
        after.base_status@ == status,
        !before.typing ==> after.status@ == status,
        before.typing ==> after.status@ == before.status@,
        after.online == online && after.online_dot == online,
        after.typing == before.typing,
{
}

/// The bar of a reply shows the message that is replied to, as soon as it is known.
pub proof fn law_reply_bars_follow_their_message(view: MessagesView, composer: Composer, id: i32)
    requires
        reply_bar_refreshed(view, composer),
        view.composer.reply_to == Some(id),
        view.knows(id),
    ensures
        composer.reply_bar,
        composer.reply_to == Some(id),
        composer.text == view.composer.text && composer.cursor == view.composer.cursor
            && composer.edit == view.composer.edit,
        view.entry(id).msg.sender@.len() > 0 && view.entry(id).msg.text@.len() <= 60
            ==> composer.reply_label@ == "Reply to "@ + view.entry(id).msg.sender@ + ": "@
            + view.entry(id).msg.text@,
{
}

/// A message that was fetched for its quote is named in the bar of a reply, too.
pub proof fn law_reply_bars_show_fetched_messages(
    view: MessagesView,
    composer: Composer,
    id: i32,
    sender: Seq<char>,
    text: Seq<char>,
)
    requires
        reply_bar_refreshed(view, composer),
        view.composer.reply_to == Some(id),
        quoted(view, id) == Some((sender, text)),
    ensures
        composer.reply_bar,
        composer.reply_label@ == reply_text(sender, text),
        composer.text == view.composer.text,
{
}

/// Where nothing is replied to, or nothing is known of it, the composer stays.
pub proof fn law_reply_bars_wait(view: MessagesView, composer: Composer)
    requires
        reply_bar_refreshed(view, composer),
        view.composer.reply_to matches Some(id) ==> !view.knows(id)
            && !view.quote_cache@.contains_key(id),
    ensures
        composer == view.composer,
{
}

/// A list that was emptied holds nothing of the chat before.
pub proof fn law_empty_lists_hold_nothing(view: MessagesView, id: i32)
    requires
        view.list_is_empty(),
    ensures
        !view.knows(id),
        !view.quote_cache@.contains_key(id),
        !view.pending_messages@.contains(id),
        view.divider is None,
        view.aux@.len() == 0 && view.media_ready@.len() == 0 && view.edited_now@.len() == 0,
{
    if view.knows(id) {
        let entries = view.store.entries@;
        assert(crate::messages::store::stands_at(
            entries,
            id,
            crate::messages::store::place_of(entries, id),
        ));
    }
}

/// A composer that was not touched is empty and in no mode.
pub proof fn law_untouched_composers_are_empty(composer: Composer)
    requires
        composer.untouched(),
    ensures
        composer.text@.len() == 0 && composer.cursor == 0,
        composer.reply_to is None && !composer.reply_bar && composer.reply_label@.len() == 0,
        composer.edit is None && !composer.edit_bar && !composer.ai_draft,
        composer.edit_label == EditLabel::Editing,
        composer.plain_text().len() == 0,
{
}

/// A text that is set stands with the cursor at its end, and nothing else changes.
pub proof fn law_texts_are_set(before: Composer, after: Composer, text: Seq<char>)
    requires
        after.has_text(before, text),
    ensures
        after.text@ == text,
        text.len() <= i32::MAX ==> after.cursor == text.len(),
        after.reply_to == before.reply_to && after.edit == before.edit && after.edit_bar
            == before.edit_bar && after.reply_bar == before.reply_bar && after.ai_draft
            == before.ai_draft,
{
}

/// Messages that hold the same are the same in every part.
pub proof fn law_same_messages_hold_the_same(left: Msg, right: Msg)
    requires
        left.same(right),
    ensures
        left.id == right.id && left.chat_id == right.chat_id && left.sender_id == right.sender_id,
        left.text == right.text && left.markdown == right.markdown && left.sender == right.sender,
        left.ts == right.ts && left.outgoing == right.outgoing && left.edited == right.edited,
        left.deleted == right.deleted && left.media == right.media && left.doc_name
            == right.doc_name,
        left.reply_to == right.reply_to && left.forwarded_from == right.forwarded_from && left.views
            == right.views,
        left.reactions@ == right.reactions@ && left.duration == right.duration && left.webpage
            == right.webpage,
        left.chat_title == right.chat_title,
{
}

/// Composers that are the same hold the same in every part.
pub proof fn law_same_composers_hold_the_same(left: Composer, right: Composer)
    requires
        left.same(right),
    ensures
        left.text@ == right.text@ && left.cursor == right.cursor,
        left.reply_to == right.reply_to && left.reply_label@ == right.reply_label@
            && left.reply_bar == right.reply_bar,
        left.edit == right.edit && left.edit_bar == right.edit_bar && left.edit_label
            == right.edit_label && left.ai_draft == right.ai_draft,
{
}

/// A reaction that changed moves where its effects are shown: it rolls where something
/// was there before, and bursts. One that is gone is hidden.
pub proof fn law_changed_reactions_move(
    step: ReactionStep,
    shown: Seq<String>,
    reactions: Seq<Reaction>,
    at: int,
    animate: bool,
    effects: Effects,
)
    requires
        is_reaction_step(step, shown, reactions, at, animate, effects),
        0 <= at,
    ensures
        step.visible <==> at < reactions.len(),
        at < reactions.len() && reactions[at].count == 1 ==> step.text@ == reactions[at].emoji@,
        at >= reactions.len() || !animate ==> step.roll is None && step.burst is None,
        step.burst is Some ==> effects.shows(Effect::Reactburst),
        step.roll matches Some((out, back)) ==> out.class@ == "omg-run-reactroll"@ && out.time
            == 200 && back.class@ == "omg-run-reactroll-in"@ && back.time == 200,
        at >= reactions.len() && at < shown.len() ==> step.text@ == shown[at]@,
        step.roll is Some ==> effects.shows(Effect::Reactroll) && at < shown.len() && shown[at]@.len()
            > 0,
        at < reactions.len() && at < shown.len() && animate && shown[at]@ != step.text@
            && effects.shows(Effect::Reactburst) ==> step.burst is Some && step.burst->0.class@
            == "omg-run-reactburst"@ && step.burst->0.time == 320,
        at < reactions.len() && at < shown.len() && animate && shown[at]@ != step.text@
            && shown[at]@.len() > 0 && effects.shows(Effect::Reactroll) ==> step.roll is Some,
{
}

/// An entry that is changed stays at its place, and no other changes.
pub proof fn law_entries_change_alone(
    entries: Seq<MessageEntry>,
    id: i32,
    entry: MessageEntry,
    at: int,
    i: int,
)
    requires
        ascending(entries),
        0 <= at < entries.len(),
        entries[at].msg.id == id,
        0 <= i < entries.len(),
    ensures
        with_entry(entries, id, entry).len() == entries.len(),
        with_entry(entries, id, entry)[at] == entry,
        i != at ==> with_entry(entries, id, entry)[i] == entries[i],
{
    lemma_one_place(entries, id, at);
}

/// The bar of an edit says what is being edited.
pub proof fn law_edit_bars_say_what_is_edited(label: EditLabel)
    ensures
        label == EditLabel::Editing ==> label.spec_text() == "Editing message"@,
        label == EditLabel::AiDraft ==> label.spec_text()
            == "AI draft — Enter sends, Esc discards"@,
{
}

/// Where nothing went wrong nothing is said of it.
pub proof fn law_clear_notices_are_silent(notice: Notice)
    ensures
        notice.clear() <==> notice.error@.len() == 0 && !notice.visible && !notice.draft_retry,
{
}

/// Ids that rise hold none twice.
pub proof fn law_rising_ids_differ(ids: Seq<i32>, i: int, j: int)
    requires
        rising(ids),
        0 <= i < j < ids.len(),
    ensures
        ids[i] < ids[j],
{
}

} // verus!
