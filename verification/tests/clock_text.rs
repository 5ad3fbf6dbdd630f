use omarchygram_ui::clock::{Date, Stamp};
use omarchygram_ui::text::{
    characters, contains, duration_text, number_text, push_integer, push_padded, starts_with,
    text_between, trim,
};

const NOON: i64 = 1_788_343_200;

/// Noon on the second of September 2026, two hours east of Greenwich.
fn noon() -> Stamp {
    Stamp::new(NOON, 0, 7_200).unwrap()
}

#[test]
fn a_moment_is_shown_on_its_own_clock() {
    let noon = noon();
    assert_eq!(noon.date(), Date::from_ymd_opt(2026, 9, 2).unwrap());
    assert_eq!(noon.clock(), "12:00");
    assert_eq!(noon.hour_and_minute(), (12, 0));
    assert_eq!(noon.weekday(), "Wed");
    assert_eq!(noon.short_date(), "02.09.26");
    assert_eq!(noon.medium_date(), "Sep 2, 2026");
    assert_eq!(noon.format("%H-%M").as_deref(), Some("12-00"));
    assert_eq!(noon.format("%Q").as_deref(), None);
}

#[test]
fn days_follow_each_other() {
    let today = Date::from_ymd_opt(2026, 9, 1).unwrap();
    let before = Date::from_ymd_opt(2026, 8, 31).unwrap();
    assert!(before.is_day_before(today));
    assert!(!today.is_day_before(before));
    assert!(before.is_in_year_of(today));
    assert_eq!(before.day_and_month(), "August 31");
    assert_eq!(before.long_text(), "31 August 2026");
    assert!(Date::from_ymd_opt(2026, 2, 29).is_none());
    assert!(Date::from_ymd_opt(2024, 2, 29).is_some());
}

#[test]
fn weeks_begin_on_monday() {
    let wednesday = noon();
    let monday = Stamp::new(NOON - 2 * 86_400, 0, 7_200).unwrap();
    let sunday = Stamp::new(NOON - 3 * 86_400, 0, 7_200).unwrap();
    assert!(monday.is_in_week_of(wednesday));
    assert!(!sunday.is_in_week_of(wednesday));
}

#[test]
fn moments_are_told_apart_in_whole_seconds() {
    let earlier = Stamp::new(100, 900_000_000, 0).unwrap();
    let later = Stamp::new(102, 100_000_000, 3_600).unwrap();
    assert_eq!(later.seconds_since(earlier), 1);
    assert_eq!(earlier.seconds_since(later), -1);
    assert!(later.is_after(earlier));
    assert!(!earlier.is_after(earlier));
}

#[test]
fn times_outside_the_calendar_are_refused() {
    assert!(Stamp::new(i64::MAX, 0, 0).is_none());
    assert!(Stamp::new(0, 2_000_000_000, 0).is_none());
    assert!(Stamp::new(0, 0, 86_400).is_none());
}

#[test]
fn white_space_around_a_text_is_removed() {
    assert_eq!(trim("  a b\u{3000}\n"), "a b");
    assert_eq!(trim(" \t "), "");
}

#[test]
fn a_part_is_found_wherever_it_stands() {
    assert!(contains("omarchygram", "gram"));
    assert!(contains("omarchygram", ""));
    assert!(!contains("gram", "omarchygram"));
    assert!(starts_with("https://x", "https://"));
    assert!(!starts_with("x", "https://"));
}

#[test]
fn numbers_are_written_in_decimal() {
    assert_eq!(number_text(0), "0");
    assert_eq!(number_text(u64::MAX), "18446744073709551615");
    let mut text = String::from("n");
    push_integer(&mut text, i64::MIN);
    assert_eq!(text, "n-9223372036854775808");
    let mut text = String::new();
    push_padded(&mut text, 7);
    push_padded(&mut text, 123);
    assert_eq!(text, "07123");
}

#[test]
fn durations_have_minutes_and_seconds() {
    assert_eq!(duration_text(0), "0:00");
    assert_eq!(duration_text(61), "1:01");
    assert_eq!(duration_text(3_600), "60:00");
    assert_eq!(duration_text(-61), "-1:-1");
}

#[test]
fn a_text_is_put_together_again() {
    let chars = characters("aß漢");
    assert_eq!(chars, vec!['a', 'ß', '漢']);
    assert_eq!(text_between(&chars, 1, 3), "ß漢");
}

#[test]
fn white_space_is_what_unicode_calls_so() {
    let spaces = [
        '\t', '\n', '\u{b}', '\u{c}', '\r', ' ', '\u{85}', '\u{a0}', '\u{1680}', '\u{2000}',
        '\u{200a}', '\u{2028}', '\u{2029}', '\u{202f}', '\u{205f}', '\u{3000}',
    ];
    for space in spaces {
        assert_eq!(trim(&format!("{space}x{space}")), "x");
    }
    for other in ['\u{8}', '\u{e}', '\u{200b}', '\u{180e}', '\u{2060}', '\u{feff}'] {
        let text = format!("{other}x{other}");
        assert_eq!(trim(&text), text);
    }
    let all = (0..=0x10_ffff_u32).filter_map(char::from_u32);
    assert_eq!(all.filter(|ch| ch.is_whitespace()).count(), 25);
}
