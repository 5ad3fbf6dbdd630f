use std::collections::HashSet;

use omarchygram_ui::markup::{
    is_allowed_link, render, render_with_code_background, render_with_revealed,
};
use omarchygram_ui::tg::{Span, SpanKind};

#[test]
fn escapes_message_text_before_adding_markup() {
    let rendered = render("<b>& unsafe", &[]);
    assert_eq!(rendered.markup, "&lt;b&gt;&amp; unsafe");
}

#[test]
fn overlapping_spans_are_well_nested_in_document_order() {
    let spans = vec![
        Span {
            start: 0,
            end: 4,
            kind: SpanKind::Bold,
        },
        Span {
            start: 2,
            end: 6,
            kind: SpanKind::Italic,
        },
    ];
    let rendered = render("abcdef", &spans);
    assert_eq!(rendered.markup, "<b>ab<i>cd</i></b><i>ef</i>");
}

#[test]
fn out_of_range_and_empty_spans_are_discarded() {
    let spans = vec![
        Span {
            start: 0,
            end: 99,
            kind: SpanKind::Bold,
        },
        Span {
            start: 2,
            end: 2,
            kind: SpanKind::Italic,
        },
    ];
    assert_eq!(render("éx", &spans).markup, "éx");
}

#[test]
fn links_and_attribute_values_are_explicit_and_escaped() {
    let spans = vec![Span {
        start: 0,
        end: 4,
        kind: SpanKind::Link("https://example.test/?a=1&b=\"two\"".into()),
    }];
    let rendered = render("link", &spans);
    assert_eq!(
        rendered.markup,
        "<a href=\"https://example.test/?a=1&amp;b=&quot;two&quot;\">link</a>"
    );
    assert!(rendered.markup.contains("<a href="));
}

#[test]
fn spoiler_uses_a_pango_valid_span_and_can_be_revealed() {
    let spans = vec![Span {
        start: 0,
        end: 6,
        kind: SpanKind::Spoiler,
    }];
    let hidden = render("secret", &spans);
    assert!(hidden.has_spoiler);
    assert!(!hidden.markup.contains("<a"));
    assert!(hidden.markup.contains("alpha=\"1%\""));
    let revealed = render_with_revealed("secret", &spans, &HashSet::from([(0, 6)]));
    assert_eq!(revealed.markup, "<span>secret</span>");
    assert!(!revealed.has_spoiler);
}

#[test]
fn unsafe_and_internal_link_schemes_are_plain_text() {
    for target in [
        "omg-user:123",
        "omg-spoiler:0:4",
        "javascript:alert(1)",
        "file:///tmp/x",
    ] {
        let rendered = render(
            "link",
            &[Span {
                start: 0,
                end: 4,
                kind: SpanKind::Link(target.into()),
            }],
        );
        assert_eq!(rendered.markup, "<span>link</span>");
    }
    for target in [
        "http://example.test",
        "HTTPS://example.test",
        "tg://resolve?domain=test",
    ] {
        assert!(is_allowed_link(target));
    }
    let mention = render(
        "name",
        &[Span {
            start: 0,
            end: 4,
            kind: SpanKind::Mention(123),
        }],
    );
    assert_eq!(mention.markup, "<a href=\"omg-user:123\">name</a>");
}

#[test]
fn spoiler_link_overlap_never_nests_anchors() {
    let rendered = render(
        "secret",
        &[
            Span {
                start: 0,
                end: 6,
                kind: SpanKind::Link("https://example.test".into()),
            },
            Span {
                start: 1,
                end: 5,
                kind: SpanKind::Spoiler,
            },
        ],
    );
    assert_eq!(rendered.markup.matches("<a ").count(), 1);
    assert_eq!(rendered.markup.matches("</a>").count(), 1);
    assert!(!rendered.markup.contains("<a href=\"omg-spoiler:"));
}

#[test]
fn code_gets_the_background_that_was_asked_for() {
    let spans = vec![Span {
        start: 0,
        end: 2,
        kind: SpanKind::Code,
    }];
    let plain = render("ab", &spans).markup;
    let colored = render_with_code_background("ab", &spans, &HashSet::new(), "#102030").markup;
    assert!(colored.contains("#102030"));
    assert!(!plain.contains("#102030"));
}

fn span(start: usize, end: usize, kind: SpanKind) -> Span {
    Span { start, end, kind }
}

#[test]
fn spans_that_cannot_be_shown_leave_no_trace() {
    let given = vec![
        span(3, 3, SpanKind::Spoiler),
        span(0, 2, SpanKind::Bold),
        span(1, 9, SpanKind::Blockquote),
        span(1, 3, SpanKind::Italic),
    ];
    let usable = vec![span(0, 2, SpanKind::Bold), span(1, 3, SpanKind::Italic)];
    assert_eq!(render("a<c", &given), render("a<c", &usable));
    let none = render("a<c", &[span(2, 1, SpanKind::Blockquote), span(0, 4, SpanKind::Spoiler)]);
    assert_eq!(none.markup, "a&lt;c");
    assert!(!none.has_spoiler && !none.has_blockquote);
}

#[test]
fn spans_may_come_in_any_order() {
    let given = vec![
        span(2, 4, SpanKind::Italic),
        span(0, 4, SpanKind::Bold),
        span(0, 3, SpanKind::Mention(7)),
        span(1, 4, SpanKind::Link("https://a.test".into())),
    ];
    let turned: Vec<Span> = vec![
        span(1, 4, SpanKind::Link("https://a.test".into())),
        span(0, 3, SpanKind::Mention(7)),
        span(0, 4, SpanKind::Bold),
        span(2, 4, SpanKind::Italic),
    ];
    assert_eq!(render("abcd", &given), render("abcd", &turned));
    let equal = render("ab", &[span(0, 2, SpanKind::Bold), span(0, 2, SpanKind::Italic)]);
    assert_eq!(equal.markup, "<b><i>ab</i></b>");
    let other = render("ab", &[span(0, 2, SpanKind::Italic), span(0, 2, SpanKind::Bold)]);
    assert_eq!(other.markup, "<i><b>ab</b></i>");
}

#[test]
fn revealing_all_spoilers_lifts_their_veils_only() {
    let text = "<span alpha=\"1%\"> x";
    let spans = vec![
        span(0, 6, SpanKind::Spoiler),
        span(3, 9, SpanKind::Link("https://a.test/<span alpha=\"1%\">".into())),
        span(5, 12, SpanKind::Spoiler),
        span(7, 10, SpanKind::Blockquote),
    ];
    let all: HashSet<(usize, usize)> = spans.iter().map(|span| (span.start, span.end)).collect();
    let hidden = render(text, &spans);
    let shown = render_with_revealed(text, &spans, &all);
    assert!(hidden.markup.contains("<span alpha=\"1%\">"));
    assert_eq!(shown.markup, hidden.markup.replace("<span alpha=\"1%\">", "<span>"));
    assert!(hidden.has_spoiler && !shown.has_spoiler);
    assert_eq!(hidden.has_blockquote, shown.has_blockquote);
}

#[test]
fn a_background_does_not_show_outside_of_code() {
    let spans = vec![
        span(0, 3, SpanKind::Pre("rust".into())),
        span(1, 4, SpanKind::Spoiler),
        span(2, 4, SpanKind::Bold),
    ];
    let revealed: HashSet<(usize, usize)> = HashSet::new();
    let plain = render_with_revealed("code", &spans, &revealed);
    for background in ["#111111", "", "\"><b>"] {
        assert_eq!(render_with_code_background("code", &spans, &revealed, background), plain);
    }
}

/// Reads markup, and returns the elements that are still open behind it.
fn still_open(markup: &str) -> Option<Vec<String>> {
    let mut open: Vec<String> = Vec::new();
    let mut rest = markup;
    while let Some(start) = rest.find('<') {
        let end = start + rest[start..].find('>')?;
        let tag = &rest[start + 1..end];
        match tag.strip_prefix('/') {
            Some(name) => {
                if open.pop()? != name {
                    return None;
                }
            }
            None => open.push(tag.split(' ').next()?.to_string()),
        }
        rest = &rest[end + 1..];
    }
    Some(open)
}

#[test]
fn every_element_is_closed_where_it_is_innermost() {
    let spans = vec![
        span(0, 5, SpanKind::Code),
        span(1, 7, SpanKind::Link("https://a.test/?<>&\"".into())),
        span(2, 8, SpanKind::Mention(-5)),
        span(3, 6, SpanKind::Spoiler),
        span(4, 9, SpanKind::Strike),
        span(4, 8, SpanKind::Pre(String::new())),
    ];
    let rendered =
        render_with_code_background("<b>\"&'</", &spans, &HashSet::new(), "\"><b>");
    assert_eq!(still_open(&rendered.markup), Some(Vec::new()));
    let code = render_with_code_background(
        "x",
        &[span(0, 1, SpanKind::Code)],
        &HashSet::new(),
        "#222222",
    );
    assert_eq!(code.markup, "<span background=\"#222222\"><tt>x</tt></span>");
    let bare = render("x", &[span(0, 1, SpanKind::Code)]);
    assert_eq!(bare.markup, "<tt>x</tt>");
}
