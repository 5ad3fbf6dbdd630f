use omarchygram_ui::icons;

fn charset_contains(charset: &str, codepoint: u32) -> bool {
    charset.split_whitespace().any(|range| {
        let mut bounds = range
            .splitn(2, '-')
            .filter_map(|value| u32::from_str_radix(value, 16).ok());
        let Some(start) = bounds.next() else {
            return false;
        };
        let end = bounds.next().unwrap_or(start);
        (start..=end).contains(&codepoint)
    })
}

#[test]
fn fontconfig_charset_ranges_are_parsed() {
    assert!(charset_contains("20-7e f000-f200", 0xf139));
    assert!(charset_contains("258c", 0x258c));
    assert!(!charset_contains("20-7e f000-f100", 0xf139));
}

#[test]
fn glyphs_are_single_characters() {
    for glyph in [icons::SEND, icons::MIC, icons::CHECK_DOUBLE, icons::COMPOSER_CURSOR] {
        assert_eq!(glyph.chars().count(), 1);
    }
}
