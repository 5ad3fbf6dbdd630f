//! What the row of a message shows.

use vstd::prelude::*;
use vstd::utf8::encode_utf8;

use crate::clock::{
    clock_text, day_and_month_text, formatted, long_date_text, medium_date_text, short_date_text,
    whole_seconds, Date, Stamp,
};
use crate::icons;
use crate::messages::store::MessageEntry;
use crate::text::{decimal, push_integer, same_text};
use crate::tg::{ChatKind, MediaKind, Msg, Presence, Reaction};

verus! {

// ------------------------------------------------------------------- sizes

/// How wide a bubble may become: 66 hundredths of the pane, at most 520 pixels.
pub open spec fn bubble_limit(parent_width: Option<i32>) -> int {
    match parent_width {
        Some(width) if width > 0 => if width * 66 / 100 > 520 {
            520
        } else if width * 66 / 100 < 1 {
            1
        } else {
            width * 66 / 100
        },
        _ => 520,
    }
}

pub fn bubble_width_limit(parent_width: Option<i32>) -> (limit: i32)
    ensures
        limit == bubble_limit(parent_width),
        1 <= limit <= 520,
{
    match parent_width {
        Some(width) => {
            if width > 0 {
                let part: i64 = (width as i64) * 66 / 100;
                if part > 520 {
                    520
                } else if part < 1 {
                    1
                } else {
                    part as i32
                }
            } else {
                520
            }
        },
        None => 520,
    }
}

/// The smaller of two numbers.
pub open spec fn least(left: int, right: int) -> int {
    if left < right { left } else { right }
}

/// The larger of two numbers.
pub open spec fn most(left: int, right: int) -> int {
    if left > right { left } else { right }
}

/// The width that a bubble really gets: its natural width, capped by the limit and
/// by what is available, but never less than it needs.
pub fn child_width(minimum: i32, natural: i32, available: i32, target: i32) -> (width: i32)
    ensures
        width == most(most(least(least(natural as int, target as int), available as int), minimum as int), 1),
{
    let mut width: i32 = natural;
    if target < width {
        width = target;
    }
    if available < width {
        width = available;
    }
    if minimum > width {
        width = minimum;
    }
    if width < 1 {
        1
    } else {
        width
    }
}

/// The natural width that a bubble asks for.
pub fn natural_width(minimum: i32, natural: i32, target: i32) -> (width: i32)
    ensures
        width == most(least(natural as int, target as int), minimum as int),
{
    let width: i32 = if target < natural { target } else { natural };
    if minimum > width {
        minimum
    } else {
        width
    }
}

/// Where a bubble begins: at the end of its row for outgoing messages.
pub fn bubble_start(at_end: bool, row_width: i32, bubble_width: i32) -> (x: i32)
    requires
        i32::MIN <= row_width - bubble_width <= i32::MAX,
    ensures
        x == (if at_end { row_width - bubble_width } else { 0 }),
{
    if at_end {
        row_width - bubble_width
    } else {
        0
    }
}

// ----------------------------------------------------------------- senders

/// Whether a message is shown with its sender's name.
pub open spec fn shows_sender(kind: ChatKind, msg: Msg) -> bool {
    &&& kind is Group || kind is Channel
    &&& !msg.outgoing
    &&& msg.sender@.len() > 0
    &&& msg.sender@ != "You"@
}

pub fn can_show_sender(kind: ChatKind, msg: &Msg) -> (answer: bool)
    ensures
        answer == shows_sender(kind, *msg),
{
    (kind == ChatKind::Group || kind == ChatKind::Channel) && !msg.outgoing && !msg.sender.as_str().is_empty()
        && !same_text(&msg.sender, "You")
}

/// What tells two senders apart: the id, or the name where there is none.
pub open spec fn identity(msg: Msg) -> Seq<char> {
    match msg.sender_id {
        Some(id) => decimal(id as int),
        None => msg.sender@,
    }
}

pub fn sender_identity(msg: &Msg) -> (text: String)
    ensures
        text@ == identity(*msg),
{
    match msg.sender_id {
        Some(id) => {
            let mut text = String::new();
            push_integer(&mut text, id);
            assert(text@ =~= decimal(id as int));
            text
        },
        None => msg.sender.clone(),
    }
}

/// A hash of a name, byte by byte.
pub open spec fn name_hash(bytes: Seq<u8>) -> u64
    decreases bytes.len(),
{
    if bytes.len() == 0 {
        1_469_598_103_934_665_603u64
    } else {
        (name_hash(bytes.drop_last()) ^ (bytes.last() as u64)).wrapping_mul(1_099_511_628_211u64)
    }
}

/// Which of seven colors a sender gets.
pub open spec fn color_of(msg: Msg) -> int {
    match msg.sender_id {
        Some(id) => id as int % 7,
        None => name_hash(encode_utf8(msg.sender@)) as int % 7,
    }
}

pub fn sender_color_index(msg: &Msg) -> (index: usize)
    ensures
        index == color_of(*msg),
        index < 7,
{
    if let Some(id) = msg.sender_id {
        return crate::avatar::color_index(id);
    }
    let bytes = msg.sender.as_str().as_bytes();
    let mut hash: u64 = 1_469_598_103_934_665_603;
    let mut i: usize = 0;
    assert(bytes@.take(0) =~= Seq::<u8>::empty());
    while i < bytes.len()
        invariant
            i <= bytes@.len(),
            hash == name_hash(bytes@.take(i as int)),
        decreases bytes@.len() - i,
    {
        hash = (hash ^ (bytes[i] as u64)).wrapping_mul(1_099_511_628_211);
        assert(bytes@.take(i + 1).drop_last() =~= bytes@.take(i as int));
        assert(bytes@.take(i + 1).last() == bytes@[i as int]);
        i += 1;
    }
    assert(bytes@.take(i as int) =~= bytes@);
    (hash % 7) as usize
}

// ------------------------------------------------------------------ labels

/// Which tick an outgoing message carries.
#[derive(Debug, Clone, Copy, PartialEq, Eq, Structural)]
pub enum Receipt {
    Pending,
    Sent,
    Read,
}

impl Receipt {
    pub fn glyph(self) -> (glyph: &'static str)
        ensures
            glyph@ == (match self {
                Receipt::Pending => icons::CLOCK@,
                Receipt::Sent => icons::CHECK@,
                Receipt::Read => icons::CHECK_DOUBLE@,
            }),
    {
        match self {
            Receipt::Pending => icons::CLOCK,
            Receipt::Sent => icons::CHECK,
            Receipt::Read => icons::CHECK_DOUBLE,
        }
    }
}

/// Which tick an outgoing message carries: it is read once its id is not beyond
/// the last one that was read.
pub open spec fn receipt(pending: bool, id: i32, read_outbox: i32) -> Receipt {
    if pending {
        Receipt::Pending
    } else if id <= read_outbox {
        Receipt::Read
    } else {
        Receipt::Sent
    }
}

pub fn receipt_glyph(pending: bool, id: i32, read_outbox: i32) -> (tick: Receipt)
    ensures
        tick == receipt(pending, id, read_outbox),
{
    if pending {
        Receipt::Pending
    } else if id <= read_outbox {
        Receipt::Read
    } else {
        Receipt::Sent
    }
}

/// A point in time in the chosen format, or as hours and minutes where the format
/// is not valid.
pub open spec fn time_text(ts: Stamp, format: Seq<char>) -> Seq<char> {
    match formatted(ts.secs(), ts.nanos(), ts.offset(), format) {
        Some(text) => text,
        None => clock_text(ts),
    }
}

pub fn format_time(ts: Stamp, format: &str) -> (text: String)
    ensures
        text@ == time_text(ts, format@),
{
    match ts.format(format) {
        Some(text) => text,
        None => ts.clock(),
    }
}

/// What stands below a message: its time, and whether it was edited.
pub open spec fn time_label_text(ts: Stamp, edited: bool, format: Seq<char>) -> Seq<char> {
    time_text(ts, format) + (if edited { " edited"@ } else { Seq::empty() })
}

pub fn time_label(ts: Stamp, edited: bool, format: &str) -> (text: String)
    ensures
        text@ == time_label_text(ts, edited, format@),
{
    let mut text = format_time(ts, format);
    if edited {
        text.push_str(" edited");
    }
    assert(text@ =~= time_label_text(ts, edited, format@));
    text
}

/// Whether a format of strftime is valid: it is tried on one point in time.
pub fn valid_time_format(format: &str) -> (valid: bool)
    ensures
        valid == (formatted(946_782_345, 0, 0, format@) is Some),
{
    match Stamp::new(946_782_345, 0, 0) {
        Some(fixed) => fixed.format(format).is_some(),
        None => false,
    }
}

/// What a chat's header says about when a user was last seen.
pub open spec fn presence_label(presence: Presence, now: Stamp) -> Seq<char> {
    match presence {
        Presence::Online => "Online"@,
        Presence::LastSeen(time) => if time.calendar() == now.calendar() {
            "last seen at "@ + clock_text(time)
        } else {
            "last seen "@ + short_date_text(time.calendar())
        },
        Presence::Recently => "last seen recently"@,
        Presence::LastWeek => "last seen within a week"@,
        Presence::LastMonth => "last seen within a month"@,
        Presence::LongAgo => "last seen a long time ago"@,
        Presence::Unknown => Seq::empty(),
    }
}

pub fn presence_text(presence: Presence, now: Stamp) -> (text: String)
    ensures
        text@ == presence_label(presence, now),
{
    match presence {
        Presence::Online => "Online".to_owned(),
        Presence::LastSeen(time) => {
            if time.date() == now.date() {
                let mut text = "last seen at ".to_owned();
                let clock = time.clock();
                text.push_str(&clock);
                text
            } else {
                let mut text = "last seen ".to_owned();
                let date = time.short_date();
                text.push_str(&date);
                text
            }
        },
        Presence::Recently => "last seen recently".to_owned(),
        Presence::LastWeek => "last seen within a week".to_owned(),
        Presence::LastMonth => "last seen within a month".to_owned(),
        Presence::LongAgo => "last seen a long time ago".to_owned(),
        Presence::Unknown => String::new(),
    }
}

/// What stands between the messages of two days.
pub open spec fn day_label(date: Date, today: Date) -> Seq<char> {
    if date == today {
        "Today"@
    } else if date.is_yesterday(today) {
        "Yesterday"@
    } else if date.year() == today.year() {
        day_and_month_text(date)
    } else {
        long_date_text(date)
    }
}

pub fn day_separator_label_at(date: Date, today: Date) -> (label: String)
    ensures
        label@ == day_label(date, today),
{
    if date == today {
        "Today".to_owned()
    } else if date.is_day_before(today) {
        "Yesterday".to_owned()
    } else if date.is_in_year_of(today) {
        date.day_and_month()
    } else {
        date.long_text()
    }
}

/// What the date chip says while the list is scrolled: the day of the first
/// message in view.
pub fn date_chip_label(first_visible: Option<Stamp>, now: Stamp) -> (label: String)
    ensures
        label@ == (match first_visible {
            None => Seq::empty(),
            Some(ts) => if ts.calendar() == now.calendar() {
                "today"@
            } else {
                medium_date_text(ts.calendar())
            },
        }),
{
    match first_visible {
        None => String::new(),
        Some(ts) => if ts.date() == now.date() {
            "today".to_owned()
        } else {
            ts.medium_date()
        },
    }
}

/// What one reaction shows: its emoji, and how often it was given unless once.
pub open spec fn reaction_text(reaction: Reaction) -> Seq<char> {
    if reaction.count == 1 {
        reaction.emoji@
    } else {
        reaction.emoji@ + " "@ + decimal(reaction.count as int)
    }
}

pub fn reaction_label(reaction: &Reaction) -> (text: String)
    ensures
        text@ == reaction_text(*reaction),
{
    let mut text = reaction.emoji.clone();
    if reaction.count != 1 {
        text.push_str(" ");
        push_integer(&mut text, reaction.count as i64);
        assert(text@ =~= reaction_text(*reaction));
    }
    text
}

/// What a row holds for the file of a message.
#[derive(Debug, Clone, Copy, PartialEq, Eq, Structural)]
pub enum MediaPart {
    /// Nothing.
    Absent,
    /// A picture, once it is loaded.
    Picture,
    /// A button that opens the file.
    Button,
    /// A button that opens the recording, and one that transcribes it.
    Recording,
}

pub open spec fn media_part_of(media: Option<MediaKind>) -> MediaPart {
    match media {
        None => MediaPart::Absent,
        Some(MediaKind::Photo) | Some(MediaKind::Sticker) => MediaPart::Picture,
        Some(MediaKind::Voice) => MediaPart::Recording,
        Some(_) => MediaPart::Button,
    }
}

pub fn media_part(media: Option<MediaKind>) -> (part: MediaPart)
    ensures
        part == media_part_of(media),
{
    match media {
        None => MediaPart::Absent,
        Some(MediaKind::Photo) | Some(MediaKind::Sticker) => MediaPart::Picture,
        Some(MediaKind::Voice) => MediaPart::Recording,
        Some(_) => MediaPart::Button,
    }
}

/// What the button for a file says: a voice message is called so, any other file
/// by its name.
pub open spec fn file_label(msg: Msg) -> Seq<char> {
    if msg.media == Some(MediaKind::Voice) {
        "voice message"@
    } else {
        match msg.doc_name {
            Some(name) => name@,
            None => "document"@,
        }
    }
}

pub fn media_label(msg: &Msg) -> (label: String)
    ensures
        label@ == file_label(*msg),
{
    if msg.media == Some(MediaKind::Voice) {
        "voice message".to_owned()
    } else {
        match &msg.doc_name {
            Some(name) => name.clone(),
            None => "document".to_owned(),
        }
    }
}

/// What stands above a forwarded message.
pub open spec fn forwarded_text(from: Option<String>) -> Option<Seq<char>> {
    match from {
        Some(name) => Some(icons::FORWARD@ + " Forwarded from "@ + name@),
        None => None,
    }
}

pub fn forwarded_label(from: &Option<String>) -> (label: Option<String>)
    ensures
        crate::clock::option_text(label) == forwarded_text(*from),
{
    match from {
        Some(name) => {
            let mut label = icons::FORWARD.to_owned();
            label.push_str(" Forwarded from ");
            label.push_str(name);
            Some(label)
        },
        None => None,
    }
}

/// What says how often a message was seen.
pub open spec fn views_text(views: Option<i32>) -> Option<Seq<char>> {
    match views {
        Some(count) => Some(icons::EYE@ + " "@ + decimal(count as int)),
        None => None,
    }
}

pub fn views_label(views: Option<i32>) -> (label: Option<String>)
    ensures
        crate::clock::option_text(label) == views_text(views),
{
    match views {
        Some(count) => {
            let mut label = icons::EYE.to_owned();
            label.push_str(" ");
            push_integer(&mut label, count as i64);
            Some(label)
        },
        None => None,
    }
}

/// All that a row shows of a message.
pub struct RowPlan {
    pub forwarded: Option<String>,
    pub sender_visible: bool,
    pub color: usize,
    pub quote_visible: bool,
    pub media: MediaPart,
    pub media_label: String,
    pub transcribe_visible: bool,
    pub has_text: bool,
    pub time: String,
    pub views: Option<String>,
    pub receipt: Receipt,
    pub receipt_visible: bool,
    pub deleted: bool,
    pub reactions: Vec<String>,
}

/// What the view is set to when a row is made.
pub struct RowSettings<'a> {
    pub kind: ChatKind,
    pub ai_enabled: bool,
    pub time_format: &'a str,
    pub pending: bool,
    pub read_outbox: i32,
}

impl RowPlan {
    /// Whether this is the row of a message.
    pub open spec fn shows(self, msg: Msg, settings: RowSettings) -> bool {
        &&& crate::clock::option_text(self.forwarded) == forwarded_text(msg.forwarded_from)
        &&& self.sender_visible == shows_sender(settings.kind, msg)
        &&& self.color == color_of(msg)
        &&& self.quote_visible == (msg.reply_to is Some)
        &&& self.media == media_part_of(msg.media)
        &&& self.media_label@ == file_label(msg)
        &&& self.transcribe_visible == (settings.ai_enabled && msg.media == Some(MediaKind::Voice))
        &&& self.has_text == (msg.text@.len() > 0)
        &&& self.time@ == time_label_text(msg.ts, msg.edited, settings.time_format@)
        &&& crate::clock::option_text(self.views) == views_text(msg.views)
        &&& self.receipt == receipt(settings.pending, msg.id, settings.read_outbox)
        &&& self.receipt_visible == msg.outgoing
        &&& self.deleted == msg.deleted
        &&& self.reactions@.len() == msg.reactions@.len()
        &&& forall|i: int|
            0 <= i < self.reactions@.len() ==> (#[trigger] self.reactions@[i])@ == reaction_text(
                msg.reactions@[i],
            )
    }
}

/// Lays out the row of a message.
pub fn build_row(msg: &Msg, settings: &RowSettings) -> (plan: RowPlan)
    ensures
        plan.shows(*msg, *settings),
{
    let mut reactions: Vec<String> = Vec::new();
    let mut i: usize = 0;
    while i < msg.reactions.len()
        invariant
            i <= msg.reactions@.len(),
            reactions@.len() == i,
            forall|j: int|
                0 <= j < i ==> (#[trigger] reactions@[j])@ == reaction_text(msg.reactions@[j]),
        decreases msg.reactions@.len() - i,
    {
        reactions.push(reaction_label(&msg.reactions[i]));
        i += 1;
    }
    RowPlan {
        forwarded: forwarded_label(&msg.forwarded_from),
        sender_visible: can_show_sender(settings.kind, msg),
        color: sender_color_index(msg),
        quote_visible: msg.reply_to.is_some(),
        media: media_part(msg.media),
        media_label: media_label(msg),
        transcribe_visible: settings.ai_enabled && msg.media == Some(MediaKind::Voice),
        has_text: !msg.text.as_str().is_empty(),
        time: time_label(msg.ts, msg.edited, settings.time_format),
        views: views_label(msg.views),
        receipt: receipt_glyph(settings.pending, msg.id, settings.read_outbox),
        receipt_visible: msg.outgoing,
        deleted: msg.deleted,
        reactions,
    }
}

// ------------------------------------------------------------------ layout

/// Where a row stands in the list.
#[derive(Debug, Clone, Copy, PartialEq, Eq, Structural)]
pub struct Placement {
    pub id: i32,
    /// The day that begins above the row.
    pub new_day: Option<Date>,
    pub sender_visible: bool,
    pub margin_top: i32,
}

/// Whether a message follows another of the same sender on the same day, less than
/// six minutes apart.
pub open spec fn continues(previous: Msg, msg: Msg) -> bool {
    &&& previous.ts.calendar() == msg.ts.calendar()
    &&& previous.outgoing == msg.outgoing
    &&& identity(previous) == identity(msg)
    &&& -360 < whole_seconds(msg.ts.instant() - previous.ts.instant()) < 360
}

/// Where the row of a message stands below another.
pub open spec fn placement(kind: ChatKind, previous: Option<Msg>, msg: Msg) -> Placement {
    let same_sender = match previous {
        Some(other) => continues(other, msg),
        None => false,
    };
    Placement {
        id: msg.id,
        new_day: match previous {
            Some(other) => if other.ts.calendar() == msg.ts.calendar() {
                None
            } else {
                Some(msg.ts.calendar())
            },
            None => Some(msg.ts.calendar()),
        },
        sender_visible: shows_sender(kind, msg) && !same_sender,
        margin_top: if same_sender {
            4
        } else if previous is Some {
            12
        } else {
            0
        },
    }
}

/// Where the row at `i` stands.
pub open spec fn placement_at(kind: ChatKind, entries: Seq<MessageEntry>, i: int) -> Placement {
    placement(kind, if i > 0 { Some(entries[i - 1].msg) } else { None }, entries[i].msg)
}

fn is_continued(previous: &Msg, msg: &Msg) -> (answer: bool)
    ensures
        answer == continues(*previous, *msg),
{
    if !(previous.ts.date() == msg.ts.date()) || previous.outgoing != msg.outgoing {
        return false;
    }
    if !(sender_identity(previous) == sender_identity(msg)) {
        return false;
    }
    let seconds = msg.ts.seconds_since(previous.ts);
    -360 < seconds && seconds < 360
}

fn place(kind: ChatKind, previous: Option<&Msg>, msg: &Msg) -> (placed: Placement)
    ensures
        placed == placement(
            kind,
            match previous {
                Some(other) => Some(*other),
                None => None,
            },
            *msg,
        ),
{
    let date = msg.ts.date();
    let sender_visible = can_show_sender(kind, msg);
    match previous {
        Some(other) => {
            let same_sender = is_continued(other, msg);
            Placement {
                id: msg.id,
                new_day: if other.ts.date() == date { None } else { Some(date) },
                sender_visible: sender_visible && !same_sender,
                margin_top: if same_sender { 4 } else { 12 },
            }
        },
        None => Placement { id: msg.id, new_day: Some(date), sender_visible, margin_top: 0 },
    }
}

/// Where all rows stand: a day's first message begins with the day, and messages
/// that one sender writes one after the other stand closer together, with the
/// name above the first.
pub fn reorder_rows(kind: ChatKind, entries: &Vec<MessageEntry>) -> (rows: Vec<Placement>)
    ensures
        rows@.len() == entries@.len(),
        forall|i: int|
            0 <= i < rows@.len() ==> #[trigger] rows@[i] == placement_at(kind, entries@, i),
{
    let mut rows: Vec<Placement> = Vec::new();
    let mut i: usize = 0;
    while i < entries.len()
        invariant
            i <= entries@.len(),
            rows@.len() == i,
            forall|j: int|
                0 <= j < i ==> #[trigger] rows@[j] == placement_at(kind, entries@, j),
        decreases entries@.len() - i,
    {
        let previous = if i > 0 { Some(&entries[i - 1].msg) } else { None };
        rows.push(place(kind, previous, &entries[i].msg));
        i += 1;
    }
    rows
}

/// Each day has one separator: it stands above the first of the day's messages
/// that follow each other, and a message without a separator is of the same day as
/// the one before it.
pub proof fn law_separators_mark_days(kind: ChatKind, entries: Seq<MessageEntry>, i: int)
    requires
        0 <= i < entries.len(),
    ensures
        placement_at(kind, entries, i).new_day is None <==> i > 0
            && entries[i - 1].msg.ts.calendar() == entries[i].msg.ts.calendar(),
        placement_at(kind, entries, i).new_day matches Some(day) ==> day
            == entries[i].msg.ts.calendar(),
{
}

} // verus!
