//! Points in time and days of the calendar, and the texts that the views show for
//! them.

use std::fmt::Write;

use chrono::{Datelike, Timelike};
use vstd::prelude::*;

use crate::text::{digits, two_digits};

verus! {

/// Whether a year has a 29th of February.
pub open spec fn leap_year(year: int) -> bool {
    year % 4 == 0 && (year % 100 != 0 || year % 400 == 0)
}

/// How many days a month has.
pub open spec fn days_in_month(year: int, month: int) -> int {
    if month == 2 {
        if leap_year(year) { 29 } else { 28 }
    } else if month == 4 || month == 6 || month == 9 || month == 11 {
        30
    } else {
        31
    }
}

/// Whether there is such a day in the years that can be represented.
pub open spec fn real_day(year: int, month: int, day: int) -> bool {
    &&& -262143 <= year <= 262142
    &&& 1 <= month <= 12
    &&& 1 <= day <= days_in_month(year, month)
}

/// How many days lie between the first of January 1970 and a day of the
/// (proleptic) Gregorian calendar. Years are counted from March here, so that
/// the leap day comes last.
pub open spec fn day_number(year: int, month: int, day: int) -> int {
    let y = if month <= 2 { year - 1 } else { year };
    let m = (month + 9) % 12;
    365 * y + y / 4 - y / 100 + y / 400 + (153 * m + 2) / 5 + day - 1 - 719468
}

/// The first of March of a year, counted from the first of January 1970.
spec fn first_of_march(year: int) -> int {
    365 * year + year / 4 - year / 100 + year / 400 - 719468
}

proof fn lemma_next_quotient(n: int, d: int)
    requires
        d > 1,
    ensures
        (n + 1) / d == n / d + (if (n + 1) % d == 0 { 1int } else { 0int }),
{
    vstd::arithmetic::div_mod::lemma_fundamental_div_mod(n, d);
    vstd::arithmetic::div_mod::lemma_fundamental_div_mod(n + 1, d);
    let q = n / d;
    let r = n % d;
    assert(d * q == q * d) by (nonlinear_arith);
    vstd::arithmetic::div_mod::lemma_mod_bound(n, d);
    if r + 1 < d {
        vstd::arithmetic::div_mod::lemma_fundamental_div_mod_converse(n + 1, d, q, r + 1);
    } else {
        assert(q * d + d == (q + 1) * d) by (nonlinear_arith);
        vstd::arithmetic::div_mod::lemma_fundamental_div_mod_converse(n + 1, d, q + 1, 0);
    }
}

proof fn lemma_next_year(year: int)
    ensures
        first_of_march(year + 1) == first_of_march(year) + 365 + (if leap_year(year + 1) {
            1int
        } else {
            0int
        }),
{
    lemma_next_quotient(year, 4);
    lemma_next_quotient(year, 100);
    lemma_next_quotient(year, 400);
    assert((year + 1) % 400 == 0 ==> (year + 1) % 100 == 0);
    assert((year + 1) % 100 == 0 ==> (year + 1) % 4 == 0);
}

proof fn lemma_years_follow_each_other(early: int, late: int)
    requires
        early < late,
    ensures
        first_of_march(early) + 365 + (if leap_year(early + 1) { 1int } else { 0int })
            <= first_of_march(late),
    decreases late - early,
{
    lemma_next_year(late - 1);
    if early + 1 < late {
        lemma_years_follow_each_other(early, late - 1);
    }
}

proof fn lemma_day_in_year(year: int, month: int, day: int)
    requires
        real_day(year, month, day),
    ensures
        ({
            let y = if month <= 2 { year - 1 } else { year };
            first_of_march(y) <= day_number(year, month, day) < first_of_march(y) + 365 + (
            if leap_year(y + 1) { 1int } else { 0int })
        }),
{
}

/// No two days of the calendar have the same number.
pub proof fn law_days_have_one_number(left: Date, right: Date)
    requires
        left.well_formed(),
        right.well_formed(),
        left.number() == right.number(),
    ensures
        left == right,
{
    let y = if left.month() <= 2 { left.year() - 1 } else { left.year() };
    let z = if right.month() <= 2 { right.year() - 1 } else { right.year() };
    lemma_day_in_year(left.year(), left.month(), left.day());
    lemma_day_in_year(right.year(), right.month(), right.day());
    if y < z {
        lemma_years_follow_each_other(y, z);
    } else if z < y {
        lemma_years_follow_each_other(z, y);
    }
    assert(y == z);
    assert(left.month() == right.month() && left.day() == right.day());
    left.lemma_same(right);
}

/// A day of the calendar.
#[derive(Debug, Clone, Copy, PartialEq, Eq, Structural)]
pub struct Date {
    year: i32,
    month: u32,
    day: u32,
}

impl Date {
    pub closed spec fn year(self) -> int {
        self.year as int
    }

    pub closed spec fn month(self) -> int {
        self.month as int
    }

    pub closed spec fn day(self) -> int {
        self.day as int
    }

    #[verifier::type_invariant]
    pub open spec fn well_formed(self) -> bool {
        real_day(self.year(), self.month(), self.day())
    }

    /// How many days lie between the first of January 1970 and this day.
    pub open spec fn number(self) -> int {
        day_number(self.year(), self.month(), self.day())
    }

    /// The day with this year, month and day of the month, where there is one.
    pub fn from_ymd_opt(year: i32, month: u32, day: u32) -> (date: Option<Date>)
        ensures
            date is Some <==> real_day(year as int, month as int, day as int),
            date matches Some(found) ==> found.year() == year && found.month() == month
                && found.day() == day,
    {
        if exists_in_calendar(year, month, day) {
            Some(Date { year, month, day })
        } else {
            None
        }
    }

    /// Two days are the same where their year, month and day are.
    pub proof fn lemma_same(self, other: Date)
        ensures
            self == other <==> self.year() == other.year() && self.month() == other.month()
                && self.day() == other.day(),
    {
    }
}

/// Asks `chrono::NaiveDate::from_ymd_opt` whether there is such a day. It returns
/// a date exactly for the days of the proleptic Gregorian calendar between the
/// years -262143 and 262142.
#[verifier::external_body]
fn exists_in_calendar(year: i32, month: u32, day: u32) -> (known: bool)
    ensures
        known == real_day(year as int, month as int, day as int),
{
    chrono::NaiveDate::from_ymd_opt(year, month, day).is_some()
}

/// Calls `chrono::NaiveDate::pred_opt`, which returns the day before, and nothing
/// before the first representable day.
#[verifier::external_body]
fn day_before(date: Date) -> (before: Option<Date>)
    requires
        date.well_formed(),
    ensures
        before is None <==> (date.year() == -262143 && date.month() == 1 && date.day() == 1),
        before matches Some(earlier) ==> earlier.well_formed() && earlier.number() == date.number()
            - 1,
{
    let before = chrono::NaiveDate::from_ymd_opt(date.year, date.month, date.day)?.pred_opt()?;
    Some(Date { year: before.year(), month: before.month(), day: before.day() })
}

/// A point in time, and how far the local clock was from Greenwich then.
#[derive(Debug, Clone, Copy, PartialEq, Eq, Structural)]
pub struct Stamp {
    secs: i64,
    nanos: u32,
    offset: i32,
}

/// The first second that can be represented.
pub const FIRST_SECOND: i64 = -8334601228800;

/// The last second that can be represented.
pub const LAST_SECOND: i64 = 8210266876799;

/// Whether such a point in time can be represented.
pub open spec fn representable(secs: int, nanos: int, offset: int) -> bool {
    &&& FIRST_SECOND <= secs <= LAST_SECOND
    &&& FIRST_SECOND <= secs + offset <= LAST_SECOND
    &&& 0 <= nanos < 1_000_000_000
    &&& -86400 < offset < 86400
}

impl Stamp {
    /// Seconds since the beginning of 1970 in Greenwich.
    pub closed spec fn secs(self) -> int {
        self.secs as int
    }

    /// Nanoseconds behind the full second.
    pub closed spec fn nanos(self) -> int {
        self.nanos as int
    }

    /// How many seconds the local clock is ahead of Greenwich.
    pub closed spec fn offset(self) -> int {
        self.offset as int
    }

    #[verifier::type_invariant]
    pub open spec fn well_formed(self) -> bool {
        representable(self.secs(), self.nanos(), self.offset())
    }

    /// What the local clock shows, in seconds since the beginning of 1970.
    pub open spec fn local(self) -> int {
        self.secs() + self.offset()
    }

    /// The local day, counted from the first of January 1970.
    pub open spec fn local_day(self) -> int {
        self.local() / 86400
    }

    /// The day on the local calendar.
    pub open spec fn calendar(self) -> Date {
        choose|date: Date| date.well_formed() && #[trigger] date.number() == self.local_day()
    }

    /// The hour that the local clock shows.
    pub open spec fn hour(self) -> int {
        self.local() % 86400 / 3600
    }

    /// The minute that the local clock shows.
    pub open spec fn minute(self) -> int {
        self.local() % 3600 / 60
    }

    /// Nanoseconds since the beginning of 1970 in Greenwich.
    pub open spec fn instant(self) -> int {
        self.secs() * 1_000_000_000 + self.nanos()
    }

    /// The point in time with these parts, where it can be represented.
    pub fn new(secs: i64, nanos: u32, offset: i32) -> (stamp: Option<Stamp>)
        ensures
            stamp is Some <==> representable(secs as int, nanos as int, offset as int),
            stamp matches Some(made) ==> made.secs() == secs && made.nanos() == nanos
                && made.offset() == offset,
    {
        if nanos < 1_000_000_000 && -86400 < offset && offset < 86400 && FIRST_SECOND <= secs
            && secs <= LAST_SECOND && FIRST_SECOND <= secs + (offset as i64) && secs + (offset as i64)
            <= LAST_SECOND {
            Some(Stamp { secs, nanos, offset })
        } else {
            None
        }
    }

    /// The day on the local calendar.
    pub fn date(self) -> (date: Date)
        ensures
            date.well_formed(),
            date.number() == self.local_day(),
            date == self.calendar(),
    {
        proof {
            use_type_invariant(&self);
        }
        let date = local_date(self);
        proof {
            law_days_have_one_number(date, self.calendar());
        }
        date
    }

    /// Whether this point in time comes after another.
    pub fn is_after(self, other: Stamp) -> (later: bool)
        ensures
            later == (self.instant() > other.instant()),
    {
        proof {
            use_type_invariant(&self);
            use_type_invariant(&other);
        }
        self.secs > other.secs || (self.secs == other.secs && self.nanos > other.nanos)
    }

    /// How many whole seconds this point in time comes after another, a negative
    /// number where it comes before.
    pub fn seconds_since(self, other: Stamp) -> (seconds: i64)
        ensures
            seconds == whole_seconds(self.instant() - other.instant()),
            -20_000_000_000_000 <= seconds <= 20_000_000_000_000,
    {
        proof {
            use_type_invariant(&self);
            use_type_invariant(&other);
        }
        seconds_between(self, other)
    }
}

/// A span of time in whole seconds: the fraction is dropped on either side of zero.
pub open spec fn whole_seconds(nanos: int) -> int {
    if nanos >= 0 {
        nanos / 1_000_000_000
    } else {
        -((-nanos) / 1_000_000_000)
    }
}

/// Calls `chrono::DateTime::date_naive` on the point in time with its offset. The
/// date is the one that the local clock's seconds fall on.
#[verifier::external_body]
fn local_date(stamp: Stamp) -> (date: Date)
    requires
        stamp.well_formed(),
    ensures
        date.well_formed(),
        date.number() == stamp.local_day(),
{
    let offset = chrono::FixedOffset::east_opt(stamp.offset).unwrap();
    let time = chrono::DateTime::from_timestamp(stamp.secs, stamp.nanos).unwrap();
    let date = time.with_timezone(&offset).date_naive();
    Date { year: date.year(), month: date.month(), day: date.day() }
}

/// Calls `chrono::DateTime::signed_duration_since` and `chrono::TimeDelta::num_seconds`:
/// the difference of two points in time in whole seconds, cut off towards zero.
#[verifier::external_body]
fn seconds_between(later: Stamp, earlier: Stamp) -> (seconds: i64)
    requires
        later.well_formed(),
        earlier.well_formed(),
    ensures
        seconds == whole_seconds(later.instant() - earlier.instant()),
        -20_000_000_000_000 <= seconds <= 20_000_000_000_000,
{
    let later = chrono::DateTime::from_timestamp(later.secs, later.nanos).unwrap();
    let earlier = chrono::DateTime::from_timestamp(earlier.secs, earlier.nanos).unwrap();
    later.signed_duration_since(earlier).num_seconds()
}

/// Calls `chrono::Datelike::iso_week` on both points in time and compares the two
/// weeks. A week of ISO 8601 begins on Monday, so the two are equal where the
/// local days lie between the same Mondays (the first of January 1970 was a
/// Thursday).
#[verifier::external_body]
fn in_one_week(left: Stamp, right: Stamp) -> (same: bool)
    requires
        left.well_formed(),
        right.well_formed(),
    ensures
        same == ((left.local_day() + 3) / 7 == (right.local_day() + 3) / 7),
{
    let left_offset = chrono::FixedOffset::east_opt(left.offset).unwrap();
    let right_offset = chrono::FixedOffset::east_opt(right.offset).unwrap();
    let left_time = chrono::DateTime::from_timestamp(left.secs, left.nanos).unwrap();
    let right_time = chrono::DateTime::from_timestamp(right.secs, right.nanos).unwrap();
    left_time.with_timezone(&left_offset).iso_week() == right_time.with_timezone(
        &right_offset,
    ).iso_week()
}

/// Calls `chrono::Timelike::hour` and `chrono::Timelike::minute` on the point in
/// time with its offset: what the local clock shows.
#[verifier::external_body]
fn clock_face(stamp: Stamp) -> (face: (u32, u32))
    requires
        stamp.well_formed(),
    ensures
        face.0 == stamp.hour(),
        face.1 == stamp.minute(),
{
    let offset = chrono::FixedOffset::east_opt(stamp.offset).unwrap();
    let time = chrono::DateTime::from_timestamp(stamp.secs, stamp.nanos).unwrap();
    let local = time.with_timezone(&offset);
    (local.hour(), local.minute())
}

/// The English name of a month.
pub open spec fn month_name(month: int) -> Seq<char> {
    if month == 1 { "January"@ } else if month == 2 { "February"@ }
    else if month == 3 { "March"@ } else if month == 4 { "April"@ }
    else if month == 5 { "May"@ } else if month == 6 { "June"@ }
    else if month == 7 { "July"@ } else if month == 8 { "August"@ }
    else if month == 9 { "September"@ } else if month == 10 { "October"@ }
    else if month == 11 { "November"@ } else { "December"@ }
}

/// The short English name of a month.
pub open spec fn short_month_name(month: int) -> Seq<char> {
    if month == 1 { "Jan"@ } else if month == 2 { "Feb"@ }
    else if month == 3 { "Mar"@ } else if month == 4 { "Apr"@ }
    else if month == 5 { "May"@ } else if month == 6 { "Jun"@ }
    else if month == 7 { "Jul"@ } else if month == 8 { "Aug"@ }
    else if month == 9 { "Sep"@ } else if month == 10 { "Oct"@ }
    else if month == 11 { "Nov"@ } else { "Dec"@ }
}

/// The short English name of the weekday of a day that is counted from the first
/// of January 1970, a Thursday.
pub open spec fn short_weekday_name(day: int) -> Seq<char> {
    let weekday = (day + 3) % 7;
    if weekday == 0 { "Mon"@ } else if weekday == 1 { "Tue"@ }
    else if weekday == 2 { "Wed"@ } else if weekday == 3 { "Thu"@ }
    else if weekday == 4 { "Fri"@ } else if weekday == 5 { "Sat"@ }
    else { "Sun"@ }
}

/// A number in at least four digits.
pub open spec fn four_digits(value: int) -> Seq<char> {
    if value < 10000 {
        two_digits(value / 100) + two_digits(value % 100)
    } else {
        digits(value)
    }
}

/// A year: four digits, and a sign where they are not enough.
pub open spec fn year_text(year: int) -> Seq<char> {
    if year < 0 {
        seq!['-'] + four_digits(-year)
    } else if year > 9999 {
        seq!['+'] + digits(year)
    } else {
        four_digits(year)
    }
}

/// What the local clock shows, as hours and minutes.
pub open spec fn clock_text(stamp: Stamp) -> Seq<char> {
    two_digits(stamp.hour()) + ":"@ + two_digits(stamp.minute())
}

/// A day as day of the month, month and the year's last two digits.
pub open spec fn short_date_text(date: Date) -> Seq<char> {
    two_digits(date.day()) + "."@ + two_digits(date.month()) + "."@ + two_digits(date.year() % 100)
}

/// A day as short month, day of the month and year.
pub open spec fn medium_date_text(date: Date) -> Seq<char> {
    short_month_name(date.month()) + " "@ + digits(date.day()) + ", "@ + year_text(date.year())
}

/// What chrono makes of a point in time and a format, or nothing where the format
/// is not valid.
pub uninterp spec fn formatted(secs: int, nanos: int, offset: int, format: Seq<char>) -> Option<
    Seq<char>,
>;

/// Writes `chrono::DateTime::format` of the point in time with its offset. The
/// outcome depends on the point in time, the offset and the format alone (chrono
/// is built without locales here); it is an error where the format holds an
/// invalid specifier. Four formats are also spelled out: `%H:%M`, `%a`, `%d.%m.%y`
/// and `%b %-d, %Y`.
#[verifier::external_body]
fn format_stamp(stamp: Stamp, format: &str) -> (text: Option<String>)
    requires
        stamp.well_formed(),
    ensures
        match text {
            Some(found) => Some(found@),
            None => None,
        } == formatted(stamp.secs(), stamp.nanos(), stamp.offset(), format@),
        format@ == "%H:%M"@ ==> text is Some && text->0@ == clock_text(stamp),
        format@ == "%a"@ ==> text is Some && text->0@ == short_weekday_name(stamp.local_day()),
        format@ == "%d.%m.%y"@ ==> text is Some && forall|date: Date|
            date.well_formed() && #[trigger] date.number() == stamp.local_day() ==> text->0@
                == short_date_text(date),
        format@ == "%b %-d, %Y"@ ==> text is Some && forall|date: Date|
            date.well_formed() && #[trigger] date.number() == stamp.local_day() ==> text->0@
                == medium_date_text(date),
{
    let offset = chrono::FixedOffset::east_opt(stamp.offset).unwrap();
    let time = chrono::DateTime::from_timestamp(stamp.secs, stamp.nanos).unwrap();
    let mut text = String::new();
    let outcome = write!(text, "{}", time.with_timezone(&offset).format(format));
    outcome.ok().map(|_| text)
}

/// A day as month and day of the month.
pub open spec fn day_and_month_text(date: Date) -> Seq<char> {
    month_name(date.month()) + " "@ + digits(date.day())
}

/// A day as day of the month, month and year.
pub open spec fn long_date_text(date: Date) -> Seq<char> {
    digits(date.day()) + " "@ + month_name(date.month()) + " "@ + year_text(date.year())
}

/// Writes `chrono::NaiveDate::format` of a day in one of two formats: `%B %-d`,
/// the month's name and the day, and `%-d %B %Y`, which puts the day first and the
/// year behind.
#[verifier::external_body]
fn format_date(date: Date, format: &str) -> (text: String)
    requires
        date.well_formed(),
        format@ == "%B %-d"@ || format@ == "%-d %B %Y"@,
    ensures
        format@ == "%B %-d"@ ==> text@ == day_and_month_text(date),
        format@ == "%-d %B %Y"@ ==> text@ == long_date_text(date),
{
    let date = chrono::NaiveDate::from_ymd_opt(date.year, date.month, date.day).unwrap();
    date.format(format).to_string()
}

/// What an optional text holds.
pub open spec fn option_text(text: Option<String>) -> Option<Seq<char>> {
    match text {
        Some(found) => Some(found@),
        None => None,
    }
}

impl Stamp {
    /// Whether the local days of two points in time lie in one week.
    pub fn is_in_week_of(self, other: Stamp) -> (same: bool)
        ensures
            same == ((self.local_day() + 3) / 7 == (other.local_day() + 3) / 7),
    {
        proof {
            use_type_invariant(&self);
            use_type_invariant(&other);
        }
        in_one_week(self, other)
    }

    /// The point in time in a format of strftime, or nothing where the format is
    /// not valid.
    pub fn format(self, format: &str) -> (text: Option<String>)
        ensures
            option_text(text) == formatted(self.secs(), self.nanos(), self.offset(), format@),
    {
        proof {
            use_type_invariant(&self);
        }
        format_stamp(self, format)
    }

    /// What the local clock shows, as hours and minutes.
    pub fn clock(self) -> (text: String)
        ensures
            text@ == clock_text(self),
            formatted(self.secs(), self.nanos(), self.offset(), "%H:%M"@) == Some(text@),
    {
        proof {
            use_type_invariant(&self);
        }
        format_stamp(self, "%H:%M").unwrap()
    }

    /// The hour and the minute that the local clock shows.
    pub fn hour_and_minute(self) -> (face: (u32, u32))
        ensures
            face.0 == self.hour(),
            face.1 == self.minute(),
            face.0 < 24,
            face.1 < 60,
    {
        proof {
            use_type_invariant(&self);
        }
        clock_face(self)
    }

    /// The short name of the local weekday.
    pub fn weekday(self) -> (text: String)
        ensures
            text@ == short_weekday_name(self.local_day()),
    {
        proof {
            use_type_invariant(&self);
        }
        format_stamp(self, "%a").unwrap()
    }

    /// The local day as day of the month, month and the year's last two digits.
    pub fn short_date(self) -> (text: String)
        ensures
            text@ == short_date_text(self.calendar()),
    {
        proof {
            use_type_invariant(&self);
        }
        let date = self.date();
        format_stamp(self, "%d.%m.%y").unwrap()
    }

    /// The local day as short month, day of the month and year.
    pub fn medium_date(self) -> (text: String)
        ensures
            text@ == medium_date_text(self.calendar()),
    {
        proof {
            use_type_invariant(&self);
        }
        let date = self.date();
        format_stamp(self, "%b %-d, %Y").unwrap()
    }
}

impl Date {
    /// Whether this is the day before another.
    pub open spec fn is_yesterday(self, today: Date) -> bool {
        self.number() == today.number() - 1
    }

    /// Whether this is the day before another.
    pub fn is_day_before(self, today: Date) -> (answer: bool)
        ensures
            answer == self.is_yesterday(today),
    {
        proof {
            use_type_invariant(&self);
            use_type_invariant(&today);
        }
        match day_before(today) {
            Some(yesterday) => {
                proof {
                    if self.number() == yesterday.number() {
                        law_days_have_one_number(self, yesterday);
                    }
                }
                self == yesterday
            },
            None => {
                proof {
                    lemma_first_day(self);
                }
                false
            },
        }
    }

    /// Whether two days lie in one year.
    pub fn is_in_year_of(self, other: Date) -> (same: bool)
        ensures
            same == (self.year() == other.year()),
    {
        self.year == other.year
    }

    /// The month's name and the day of the month.
    pub fn day_and_month(self) -> (text: String)
        ensures
            text@ == day_and_month_text(self),
    {
        proof {
            use_type_invariant(&self);
        }
        format_date(self, "%B %-d")
    }

    /// The day of the month, the month's name and the year.
    pub fn long_text(self) -> (text: String)
        ensures
            text@ == long_date_text(self),
    {
        proof {
            use_type_invariant(&self);
        }
        format_date(self, "%-d %B %Y")
    }
}

/// No day comes before the first of January -262143.
proof fn lemma_first_day(date: Date)
    requires
        date.well_formed(),
    ensures
        date.number() >= day_number(-262143, 1, 1),
{
    let y = if date.month() <= 2 { date.year() - 1 } else { date.year() };
    lemma_day_in_year(date.year(), date.month(), date.day());
    if y > -262144 {
        lemma_years_follow_each_other(-262144, y);
        lemma_day_in_year(-262143, 1, 1);
    }
}

// ----------------------------------------------------------------------- laws

/// Every fourth year is a leap year, but of the full centuries every fourth only.
/// A month has the days that the calendar gives it.
pub proof fn law_months_have_their_days(year: int)
    ensures
        leap_year(4 * year) <==> year % 25 != 0 || year % 100 == 0,
        year % 4 != 0 ==> !leap_year(year),
        days_in_month(year, 1) == 31 && days_in_month(year, 3) == 31 && days_in_month(year, 5) == 31
            && days_in_month(year, 7) == 31 && days_in_month(year, 8) == 31 && days_in_month(
            year,
            10,
        ) == 31 && days_in_month(year, 12) == 31,
        days_in_month(year, 4) == 30 && days_in_month(year, 6) == 30 && days_in_month(year, 9) == 30
            && days_in_month(year, 11) == 30,
        days_in_month(4 * year, 2) == (if year % 25 != 0 || year % 100 == 0 {
            29
        } else {
            28int
        }),
        year % 4 != 0 ==> days_in_month(year, 2) == 28,
{
}

/// Days are numbered one after the other, through the months and the years, and the
/// first of January 1970 is the day 0.
pub proof fn law_days_are_numbered_in_turn(year: int, month: int, day: int)
    requires
        1 <= month <= 12,
    ensures
        day_number(1970, 1, 1) == 0,
        day_number(year, month, day + 1) == day_number(year, month, day) + 1,
        month < 12 ==> day_number(year, month + 1, 1) == day_number(
            year,
            month,
            days_in_month(year, month),
        ) + 1,
        month == 12 ==> day_number(year + 1, 1, 1) == day_number(year, 12, 31) + 1,
{
    lemma_next_quotient(year - 1, 4);
    lemma_next_quotient(year - 1, 100);
    lemma_next_quotient(year - 1, 400);
    assert(year % 400 == 0 ==> year % 100 == 0);
    assert(year % 100 == 0 ==> year % 4 == 0);
}

/// The date of a point in time is the day on which it lies at its place.
pub proof fn law_stamps_lie_on_their_day(stamp: Stamp, date: Date, other: Stamp)
    requires
        date.well_formed(),
        date.number() == (stamp.secs() + stamp.offset()) / 86400,
    ensures
        stamp.calendar() == date,
        (other.secs() + other.offset()) / 86400 == (stamp.secs() + stamp.offset()) / 86400
            ==> other.calendar() == date,
        other.calendar().well_formed() && other.calendar().number() == (other.secs()
            + other.offset()) / 86400 && (other.secs() + other.offset()) / 86400 != (stamp.secs()
            + stamp.offset()) / 86400 ==> other.calendar() != date,
{
    assert(date.number() == stamp.local_day());
    law_days_have_one_number(date, stamp.calendar());
}

/// Hours and minutes count from midnight at the place of the point in time.
pub proof fn law_clocks_count_from_midnight(
    stamp: Stamp,
    day: int,
    hour: int,
    minute: int,
    second: int,
)
    requires
        0 <= hour < 24,
        0 <= minute < 60,
        0 <= second < 60,
        stamp.secs() + stamp.offset() == 86400 * day + 3600 * hour + 60 * minute + second,
    ensures
        stamp.hour() == hour,
        stamp.minute() == minute,
        clock_text(stamp) == two_digits(hour) + ":"@ + two_digits(minute),
{
    let local = stamp.local();
    let of_day = 3600 * hour + 60 * minute + second;
    let of_hour = 60 * minute + second;
    vstd::arithmetic::div_mod::lemma_fundamental_div_mod_converse(local, 86400, day, of_day);
    vstd::arithmetic::div_mod::lemma_fundamental_div_mod_converse(of_day, 3600, hour, of_hour);
    vstd::arithmetic::div_mod::lemma_fundamental_div_mod_converse(
        local,
        3600,
        24 * day + hour,
        of_hour,
    );
    vstd::arithmetic::div_mod::lemma_fundamental_div_mod_converse(of_hour, 60, minute, second);
}

/// Whole seconds are cut, not rounded, in both directions alike.
pub proof fn law_seconds_are_cut(nanos: int)
    ensures
        whole_seconds(-nanos) == -whole_seconds(nanos),
        nanos >= 0 ==> 1_000_000_000 * whole_seconds(nanos) <= nanos < 1_000_000_000 * (
        whole_seconds(nanos) + 1),
{
}

/// Months have their names, and the short name is how the long one begins.
pub proof fn law_months_have_their_names(month: int)
    ensures
        month == 1 ==> month_name(month) == "January"@ && short_month_name(month) == "Jan"@,
        month == 2 ==> month_name(month) == "February"@ && short_month_name(month) == "Feb"@,
        month == 3 ==> month_name(month) == "March"@ && short_month_name(month) == "Mar"@,
        month == 4 ==> month_name(month) == "April"@ && short_month_name(month) == "Apr"@,
        month == 5 ==> month_name(month) == "May"@ && short_month_name(month) == "May"@,
        month == 6 ==> month_name(month) == "June"@ && short_month_name(month) == "Jun"@,
        month == 7 ==> month_name(month) == "July"@ && short_month_name(month) == "Jul"@,
        month == 8 ==> month_name(month) == "August"@ && short_month_name(month) == "Aug"@,
        month == 9 ==> month_name(month) == "September"@ && short_month_name(month) == "Sep"@,
        month == 10 ==> month_name(month) == "October"@ && short_month_name(month) == "Oct"@,
        month == 11 ==> month_name(month) == "November"@ && short_month_name(month) == "Nov"@,
        month == 12 ==> month_name(month) == "December"@ && short_month_name(month) == "Dec"@,
{
}

/// Weekdays come back every seven days, and the day 0 was a Thursday.
pub proof fn law_weekdays_come_back(day: int)
    ensures
        short_weekday_name(day + 7) == short_weekday_name(day),
        short_weekday_name(7 * day) == "Thu"@,
        short_weekday_name(7 * day + 1) == "Fri"@,
        short_weekday_name(7 * day + 2) == "Sat"@,
        short_weekday_name(7 * day + 3) == "Sun"@,
        short_weekday_name(7 * day + 4) == "Mon"@,
        short_weekday_name(7 * day + 5) == "Tue"@,
        short_weekday_name(7 * day + 6) == "Wed"@,
{
}

/// A year is written with four digits, one that takes more or is negative with a
/// sign.
pub proof fn law_years_have_four_digits(a: int, b: int, c: int, d: int)
    requires
        0 <= a < 10,
        0 <= b < 10,
        0 <= c < 10,
        0 <= d < 10,
    ensures
        ({
            let year = 1000 * a + 100 * b + 10 * c + d;
            let text = year_text(year);
            &&& text.len() == 4
            &&& text[0] as int == 48 + a
            &&& text[1] as int == 48 + b
            &&& text[2] as int == 48 + c
            &&& text[3] as int == 48 + d
            &&& year > 0 ==> year_text(-year) == seq!['-'] + text
            &&& year_text(10000 + year) == seq!['+'] + digits(10000 + year)
        }),
{
    let year = 1000 * a + 100 * b + 10 * c + d;
    assert(year / 100 == 10 * a + b);
    assert(year % 100 == 10 * c + d);
    crate::text_laws::law_two_digits(a, b);
    crate::text_laws::law_two_digits(c, d);
}

/// Dates are written with their day, month and year in three ways.
pub proof fn law_dates_are_written(date: Date)
    ensures
        short_date_text(date) == two_digits(date.day()) + "."@ + two_digits(date.month()) + "."@
            + two_digits(date.year() % 100),
        medium_date_text(date) == short_month_name(date.month()) + " "@ + digits(date.day()) + ", "@
            + year_text(date.year()),
        long_date_text(date) == digits(date.day()) + " "@ + month_name(date.month()) + " "@
            + year_text(date.year()),
        day_and_month_text(date) == month_name(date.month()) + " "@ + digits(date.day()),
{
}

} // verus!
