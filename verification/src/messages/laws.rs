//! What holds of the rows of a conversation: which messages stand together, whose
//! name stands above them, and what a row says of its message.

use vstd::prelude::*;

use crate::clock::{formatted, Date, Stamp};
use crate::messages::rows::{
    bubble_limit, color_of, day_label, file_label, forwarded_text, identity, least, most,
    name_hash, placement_at, presence_label, receipt, time_label_text, time_text, views_text, MediaPart, Receipt, RowPlan,
    RowSettings,
};
use crate::messages::store::MessageEntry;
use crate::text::{decimal, digits, two_digits};
use crate::text_laws::law_numbers_are_told_apart;
use crate::tg::{ChatKind, MediaKind, Msg, Presence};

verus! {

/// In a group or a channel, a message that comes in from another sender than the
/// one before it stands apart and under its sender's name.
pub proof fn law_new_senders_are_named(kind: ChatKind, entries: Seq<MessageEntry>, i: int)
    requires
        0 < i < entries.len(),
        kind == ChatKind::Group || kind == ChatKind::Channel,
        !entries[i].msg.outgoing,
        entries[i].msg.sender@.len() > 0,
        entries[i].msg.sender@ != "You"@,
        match (entries[i - 1].msg.sender_id, entries[i].msg.sender_id) {
            (Some(other), Some(id)) => other != id,
            (None, None) => entries[i - 1].msg.sender@ != entries[i].msg.sender@,
            _ => false,
        },
    ensures
        placement_at(kind, entries, i).sender_visible,
        placement_at(kind, entries, i).margin_top == 12,
{
    if let (Some(other), Some(id)) = (entries[i - 1].msg.sender_id, entries[i].msg.sender_id) {
        law_numbers_are_told_apart(other as int, id as int);
    }
}

/// Messages of one sender that follow each other on one day, less than six minutes
/// apart, stand close together, with no name above the later one. Any longer pause,
/// another day or another direction parts them.
pub proof fn law_runs_stand_together(kind: ChatKind, entries: Seq<MessageEntry>, i: int)
    requires
        0 < i < entries.len(),
        entries[i - 1].msg.sender_id == entries[i].msg.sender_id,
        entries[i - 1].msg.sender@ == entries[i].msg.sender@,
    ensures
        ({
            let (earlier, later) = (entries[i - 1].msg, entries[i].msg);
            let pause = (later.ts.secs() - earlier.ts.secs()) * 1_000_000_000 + (later.ts.nanos()
                - earlier.ts.nanos());
            let row = placement_at(kind, entries, i);
            let together = earlier.outgoing == later.outgoing && earlier.ts.calendar()
                == later.ts.calendar() && -360_000_000_000 < pause < 360_000_000_000;
            &&& together ==> row.margin_top == 4 && !row.sender_visible
            &&& !together ==> row.margin_top == 12 && row.sender_visible == ((kind
                == ChatKind::Group || kind == ChatKind::Channel) && !later.outgoing
                && later.sender@.len() > 0 && later.sender@ != "You"@)
        }),
{
}

/// Only a group or a channel names senders, never above an own message. The first
/// row of a list has no space above it.
pub proof fn law_names_stand_where_they_are_needed(
    kind: ChatKind,
    entries: Seq<MessageEntry>,
    i: int,
)
    requires
        0 <= i < entries.len(),
    ensures
        ({
            let (msg, row) = (entries[i].msg, placement_at(kind, entries, i));
            &&& row.id == msg.id
            &&& row.sender_visible ==> (kind == ChatKind::Group || kind == ChatKind::Channel)
                && !msg.outgoing && msg.sender@.len() > 0 && msg.sender@ != "You"@
            &&& i == 0 ==> row.margin_top == 0 && row.new_day == Some(msg.ts.calendar())
            &&& i == 0 && (kind == ChatKind::Group || kind == ChatKind::Channel) && !msg.outgoing
                && msg.sender@.len() > 0 && msg.sender@ != "You"@ ==> row.sender_visible
            &&& i > 0 ==> row.margin_top == 4 || row.margin_top == 12
            &&& row.new_day is Some && i > 0 ==> row.margin_top == 12
            &&& i > 0 && entries[i - 1].msg.outgoing != msg.outgoing ==> row.margin_top == 12
        }),
{
}

/// A sent message is ticked as read exactly when it was sent and its id is among
/// those that were read, and it stays read while the mark rises.
pub proof fn law_ticks_follow_the_read_mark(pending: bool, id: i32, read: i32, later: i32)
    ensures
        receipt(pending, id, read) == Receipt::Pending <==> pending,
        receipt(pending, id, read) == Receipt::Read <==> !pending && read >= id,
        receipt(pending, id, read) == Receipt::Sent <==> !pending && read < id,
        read <= later && receipt(pending, id, read) == Receipt::Read ==> receipt(pending, id, later)
            == Receipt::Read,
{
}

/// Every part of a row is taken from its message and from how the view is set.
pub proof fn law_rows_show_their_message(plan: RowPlan, msg: Msg, settings: RowSettings)
    requires
        plan.shows(msg, settings),
    ensures
        plan.sender_visible == ((settings.kind == ChatKind::Group || settings.kind
            == ChatKind::Channel) && !msg.outgoing && msg.sender@.len() > 0 && msg.sender@
            != "You"@),
        plan.quote_visible == (msg.reply_to is Some),
        plan.has_text == (msg.text@ != Seq::<char>::empty()),
        plan.receipt_visible == msg.outgoing,
        plan.deleted == msg.deleted,
        plan.forwarded is Some <==> msg.forwarded_from is Some,
        plan.views is Some <==> msg.views is Some,
        plan.forwarded matches Some(text) ==> text@ == crate::icons::FORWARD@ + " Forwarded from "@
            + msg.forwarded_from->0@,
        plan.views matches Some(text) ==> text@ == crate::icons::EYE@ + " "@ + decimal(
            msg.views->0 as int,
        ),
        plan.media_label@ == file_label(msg),
        plan.time@ == time_label_text(msg.ts, msg.edited, settings.time_format@),
        plan.transcribe_visible <==> settings.ai_enabled && msg.media == Some(MediaKind::Voice),
        plan.media == MediaPart::Absent <==> msg.media is None,
        plan.media == MediaPart::Picture <==> msg.media == Some(MediaKind::Photo) || msg.media
            == Some(MediaKind::Sticker),
        plan.media == MediaPart::Recording <==> msg.media == Some(MediaKind::Voice),
        plan.receipt == Receipt::Pending <==> settings.pending,
        plan.receipt == Receipt::Read <==> !settings.pending && msg.id <= settings.read_outbox,
        msg.sender_id matches Some(id) ==> plan.color as int == id as int % 7,
        plan.color < 7,
        plan.reactions@.len() == msg.reactions@.len(),
        forall|i: int|
            0 <= i < plan.reactions@.len() ==> (#[trigger] plan.reactions@[i])@
                == msg.reactions@[i].emoji@ + (if msg.reactions@[i].count == 1 {
                Seq::<char>::empty()
            } else {
                " "@ + decimal(msg.reactions@[i].count as int)
            }),
{
    if msg.text@.len() == 0 {
        assert(msg.text@ =~= Seq::<char>::empty());
    }
    assert forall|i: int| 0 <= i < plan.reactions@.len() implies (#[trigger] plan.reactions@[i])@
        == msg.reactions@[i].emoji@ + (if msg.reactions@[i].count == 1 {
        Seq::<char>::empty()
    } else {
        " "@ + decimal(msg.reactions@[i].count as int)
    }) by {
        let reaction = msg.reactions@[i];
        if reaction.count == 1 {
            assert(reaction.emoji@ + Seq::<char>::empty() =~= reaction.emoji@);
        } else {
            assert(reaction.emoji@ + " "@ + decimal(reaction.count as int) =~= reaction.emoji@ + (
            " "@ + decimal(reaction.count as int)));
        }
    }
}

/// An edit adds a word to the time of a message and changes nothing else of it.
pub proof fn law_edits_are_marked(ts: Stamp, format: Seq<char>)
    ensures
        time_label_text(ts, true, format) == time_label_text(ts, false, format) + " edited"@,
{
    assert(time_label_text(ts, false, format) + " edited"@ =~= time_label_text(ts, true, format));
}

/// One sender has one color, of seven, and neighboring ids have different ones.
pub proof fn law_senders_keep_their_color(left: Msg, right: Msg)
    ensures
        0 <= color_of(left) < 7,
        left.sender_id is Some && left.sender_id == right.sender_id ==> color_of(left) == color_of(
            right,
        ),
        left.sender_id is None && right.sender_id is None && left.sender@ == right.sender@
            ==> color_of(left) == color_of(right),
        left.sender_id is Some && right.sender_id is Some && right.sender_id->0
            == left.sender_id->0 + 1 ==> color_of(right) == (color_of(left) + 1) % 7,
        left.sender_id == Some(0i64) ==> color_of(left) == 0,
{
}

/// Today and the day before it are called so, days of this year by month and day,
/// and all others with their year.
pub proof fn law_days_are_named(date: Date, today: Date)
    requires
        date.well_formed(),
        today.well_formed(),
    ensures
        date == today ==> day_label(date, today) == "Today"@,
        date.number() + 1 == today.number() ==> day_label(date, today) == "Yesterday"@,
        date.number() > today.number() || date.number() + 1 < today.number() ==> day_label(
            date,
            today,
        ) == (if date.year() == today.year() {
            crate::clock::month_name(date.month()) + " "@ + digits(date.day())
        } else {
            digits(date.day()) + " "@ + crate::clock::month_name(date.month()) + " "@
                + crate::clock::year_text(date.year())
        }),
{
}

/// What is said of a user's presence is said in words of its own for each kind.
pub proof fn law_presence_is_told(presence: Presence, now: Stamp)
    ensures
        presence == Presence::Online ==> presence_label(presence, now) == "Online"@,
        presence == Presence::Recently ==> presence_label(presence, now) == "last seen recently"@,
        presence == Presence::LastWeek ==> presence_label(presence, now)
            == "last seen within a week"@,
        presence == Presence::LastMonth ==> presence_label(presence, now)
            == "last seen within a month"@,
        presence == Presence::LongAgo ==> presence_label(presence, now)
            == "last seen a long time ago"@,
        presence == Presence::Unknown ==> presence_label(presence, now) == Seq::<char>::empty(),
        presence matches Presence::LastSeen(time) ==> presence_label(presence, now) == (if
        time.calendar() == now.calendar() {
            "last seen at "@ + (two_digits(time.hour()) + ":"@ + two_digits(time.minute()))
        } else {
            "last seen "@ + (two_digits(time.calendar().day()) + "."@ + two_digits(
                time.calendar().month(),
            ) + "."@ + two_digits(time.calendar().year() % 100))
        }),
{
}

/// The button for a file says the file's name, but for a recording.
pub proof fn law_files_are_called_by_name(msg: Msg)
    ensures
        msg.media == Some(MediaKind::Voice) ==> file_label(msg) == "voice message"@,
        msg.media != Some(MediaKind::Voice) && msg.doc_name is Some ==> file_label(msg)
            == msg.doc_name->0@,
        msg.media != Some(MediaKind::Voice) && msg.doc_name is None ==> file_label(msg)
            == "document"@,
        msg.forwarded_from is None ==> forwarded_text(msg.forwarded_from) is None,
        msg.views is None ==> views_text(msg.views) is None,
        forwarded_text(msg.forwarded_from) matches Some(text) ==> msg.forwarded_from is Some && text
            == crate::icons::FORWARD@ + " Forwarded from "@ + msg.forwarded_from->0@,
        views_text(msg.views) matches Some(text) ==> msg.views is Some && text == crate::icons::EYE@
            + " "@ + decimal(msg.views->0 as int),
{
}

/// A bubble takes two thirds of its pane, short of a hundredth, but not more than
/// 520 pixels: no wider one would fit.
pub proof fn law_bubbles_leave_room(width: i32)
    ensures
        width <= 0 ==> bubble_limit(Some(width)) == 520,
        bubble_limit(None) == 520,
        width > 0 ==> 1 <= bubble_limit(Some(width)) <= 520,
        width >= 2 ==> 100 * bubble_limit(Some(width)) <= 66 * width,
        width > 0 && bubble_limit(Some(width)) < 520 ==> 100 * (bubble_limit(Some(width)) + 1) > 66
            * width,
{
}

/// The smaller of two numbers is one of them and not above either, and likewise the
/// larger.
pub proof fn law_least_and_most(left: int, right: int)
    ensures
        least(left, right) <= left,
        least(left, right) <= right,
        least(left, right) == left || least(left, right) == right,
        most(left, right) >= left,
        most(left, right) >= right,
        most(left, right) == left || most(left, right) == right,
{
}

/// Senders are told apart by their id, and by their name where they have none.
pub proof fn law_senders_are_told_apart(left: Msg, right: Msg)
    ensures
        left.sender_id is Some && right.sender_id is Some ==> (identity(left) == identity(right)
            <==> left.sender_id->0 == right.sender_id->0),
        left.sender_id is None && right.sender_id is None ==> (identity(left) == identity(right)
            <==> left.sender@ == right.sender@),
        left.sender_id is Some ==> identity(left) == decimal(left.sender_id->0 as int),
        left.sender_id is None ==> identity(left) == left.sender@,
{
    if left.sender_id is Some && right.sender_id is Some {
        law_numbers_are_told_apart(left.sender_id->0 as int, right.sender_id->0 as int);
    }
}

/// A name is hashed byte by byte, as the FNV hash does it.
pub proof fn law_names_are_hashed_in_turn(bytes: Seq<u8>, byte: u8)
    ensures
        name_hash(Seq::empty()) == 1_469_598_103_934_665_603,
        name_hash(bytes.push(byte)) == (name_hash(bytes) ^ (byte as u64)).wrapping_mul(
            1_099_511_628_211,
        ),
{
    assert(bytes.push(byte).drop_last() =~= bytes);
}

/// A time is told in the chosen format, and as hours and minutes where that format is
/// not valid.
pub proof fn law_times_are_told_in_their_format(ts: Stamp, format: Seq<char>)
    ensures
        formatted(ts.secs(), ts.nanos(), ts.offset(), format) matches Some(text) ==> time_text(
            ts,
            format,
        ) == text,
        formatted(ts.secs(), ts.nanos(), ts.offset(), format) is None ==> time_text(ts, format)
            == two_digits(ts.hour()) + ":"@ + two_digits(ts.minute()),
        time_label_text(ts, false, format) == time_text(ts, format),
{
    assert(time_label_text(ts, false, format) =~= time_text(ts, format));
}

} // verus!
