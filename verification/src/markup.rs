//! Safe conversion of Telegram's character-offset spans to Pango markup.
//!
//! Message text and span attributes are untrusted.  This module escapes both
//! before adding the small, explicit tag set that a label understands.

use std::collections::HashSet;

use vstd::prelude::*;

use crate::text::{characters, push_integer};
use crate::tg::{Span, SpanKind};

verus! {

/// A message as markup, with what a label has to know about it.
#[derive(Debug, Clone, PartialEq, Eq)]
pub struct RenderedMarkup {
    pub markup: String,
    pub has_spoiler: bool,
    pub has_blockquote: bool,
}

/// A span that is put into the markup: which one, and whether it is a link there.
#[derive(Debug, Clone, Copy, PartialEq, Eq, Structural)]
pub struct Layer {
    pub ordinal: usize,
    pub anchor: bool,
}

/// What decides how a layer is written.
pub ghost struct Style {
    pub spans: Seq<Span>,
    pub revealed: Set<(usize, usize)>,
    pub code_background: Option<Seq<char>>,
}

/// A piece of markup: the beginning or the end of a layer, or a character.
pub ghost enum Piece {
    Open(Layer),
    Close(Layer),
    Char(char),
}

// ---------------------------------------------------------------- escaping

/// How a character of a message is written in markup.
pub open spec fn escaped_char(ch: char) -> Seq<char> {
    if ch == '&' {
        "&amp;"@
    } else if ch == '<' {
        "&lt;"@
    } else if ch == '>' {
        "&gt;"@
    } else if ch == '\'' {
        "&apos;"@
    } else if ch == '"' {
        "&quot;"@
    } else {
        seq![ch]
    }
}

/// How a text of a message is written in markup.
pub open spec fn escaped(text: Seq<char>) -> Seq<char>
    decreases text.len(),
{
    if text.len() == 0 {
        Seq::empty()
    } else {
        escaped(text.drop_last()) + escaped_char(text.last())
    }
}

/// Whether a character has a meaning of its own in markup.
pub open spec fn is_markup_char(ch: char) -> bool {
    ch == '<' || ch == '>' || ch == '\'' || ch == '"'
}

/// No text can bring a tag, or the end of an attribute, into the markup: escaped
/// text holds no angle bracket and no quotation mark.
pub proof fn law_escaped_text_holds_no_markup(text: Seq<char>)
    ensures
        forall|i: int| 0 <= i < escaped(text).len() ==> !is_markup_char(#[trigger] escaped(text)[i]),
    decreases text.len(),
{
    reveal_strlit("&amp;");
    reveal_strlit("&lt;");
    reveal_strlit("&gt;");
    reveal_strlit("&apos;");
    reveal_strlit("&quot;");
    if text.len() > 0 {
        law_escaped_text_holds_no_markup(text.drop_last());
        let start = escaped(text.drop_last());
        let end = escaped_char(text.last());
        assert forall|i: int| 0 <= i < escaped(text).len() implies !is_markup_char(
            #[trigger] escaped(text)[i],
        ) by {
            if i >= start.len() {
                assert(escaped(text)[i] == end[i - start.len()]);
            }
        }
    }
}

/// Writes one character of a message behind `out`.
pub fn escape_char(ch: char, out: &mut String)
    ensures
        final(out)@ == old(out)@ + escaped_char(ch),
{
    match ch {
        '&' => out.push_str("&amp;"),
        '<' => out.push_str("&lt;"),
        '>' => out.push_str("&gt;"),
        '\'' => out.push_str("&apos;"),
        '"' => out.push_str("&quot;"),
        _ => {
            out.push(ch);
            assert(out@ =~= old(out)@ + seq![ch]);
        },
    }
}

/// A text as the value of an attribute.
pub fn escape_attribute(value: &str) -> (text: String)
    ensures
        text@ == escaped(value@),
{
    let chars = characters(value);
    let mut out = String::new();
    let mut i: usize = 0;
    assert(value@.take(0) =~= Seq::<char>::empty());
    while i < chars.len()
        invariant
            i <= chars@.len(),
            chars@ == value@,
            out@ == escaped(value@.take(i as int)),
        decreases chars@.len() - i,
    {
        escape_char(chars[i], &mut out);
        assert(value@.take(i + 1).drop_last() =~= value@.take(i as int));
        i += 1;
    }
    assert(value@.take(i as int) =~= value@);
    out
}

// ------------------------------------------------------------------- links

/// An ASCII capital as its small letter, any other character as it is.
pub open spec fn ascii_lower(ch: char) -> char {
    if 'A' <= ch && ch <= 'Z' {
        ((ch as u8 + 32) as u8) as char
    } else {
        ch
    }
}

/// Whether two texts are the same but for the case of ASCII letters.
pub open spec fn same_but_for_case(left: Seq<char>, right: Seq<char>) -> bool {
    &&& left.len() == right.len()
    &&& forall|i: int|
        0 <= i < left.len() ==> ascii_lower(#[trigger] left[i]) == ascii_lower(right[i])
}

/// Whether the first colon of a text stands at `at`.
pub open spec fn first_colon(text: Seq<char>, at: int) -> bool {
    &&& 0 <= at < text.len()
    &&& text[at] == ':'
    &&& forall|i: int| 0 <= i < at ==> text[i] != ':'
}

/// The URI schemes that a message may launch.
pub open spec fn launchable_scheme(scheme: Seq<char>) -> bool {
    ||| same_but_for_case(scheme, "http"@)
    ||| same_but_for_case(scheme, "https"@)
    ||| same_but_for_case(scheme, "tg"@)
}

/// Whether what stands before the first colon of a link may be launched.
pub open spec fn allowed_link(target: Seq<char>) -> bool {
    exists|at: int| first_colon(target, at) && launchable_scheme(target.take(at))
}

/// The renderer's own targets, which all begin with `omg-`, cannot be reached by
/// a link of a message.
pub proof fn law_internal_targets_are_not_links(target: Seq<char>)
    requires
        "omg-"@.is_prefix_of(target),
    ensures
        !allowed_link(target),
{
    reveal_strlit("omg-");
    reveal_strlit("http");
    reveal_strlit("https");
    reveal_strlit("tg");
    assert(target[0] == 'o') by {
        assert("omg-"@[0] == target.subrange(0, 4)[0]);
    }
    assert forall|at: int| first_colon(target, at) implies !launchable_scheme(target.take(at)) by {
        let scheme = target.take(at);
        assert(at > 0);
        assert(scheme[0] == 'o');
        assert(ascii_lower(scheme[0]) == 'o');
        assert("http"@[0] == 'h' && "https"@[0] == 'h' && "tg"@[0] == 't');
    }
}

fn lower_char(ch: char) -> (lower: char)
    ensures
        lower == ascii_lower(ch),
{
    if 'A' <= ch && ch <= 'Z' {
        ((ch as u8) + 32) as char
    } else {
        ch
    }
}

fn is_scheme(chars: &Vec<char>, length: usize, scheme: &str) -> (same: bool)
    requires
        length <= chars@.len(),
    ensures
        same == same_but_for_case(chars@.take(length as int), scheme@),
{
    let wanted = characters(scheme);
    if wanted.len() != length {
        return false;
    }
    let mut i: usize = 0;
    while i < length
        invariant
            i <= length <= chars@.len(),
            wanted@ == scheme@,
            wanted@.len() == length,
            forall|j: int|
                0 <= j < i ==> ascii_lower(#[trigger] chars@.take(length as int)[j]) == ascii_lower(
                    scheme@[j],
                ),
        decreases length - i,
    {
        assert(chars@.take(length as int)[i as int] == chars@[i as int]);
        if lower_char(chars[i]) != lower_char(wanted[i]) {
            return false;
        }
        i += 1;
    }
    true
}

/// Only URI schemes that Telegram messages are allowed to launch.
///
/// The private `omg-*` targets are deliberately absent: those are renderer
/// capabilities, not URL schemes supplied by a message.
pub fn is_allowed_link(target: &str) -> (allowed: bool)
    ensures
        allowed == allowed_link(target@),
{
    let chars = characters(target);
    let mut at: usize = 0;
    while at < chars.len()
        invariant
            at <= chars@.len(),
            chars@ == target@,
            forall|j: int| 0 <= j < at ==> target@[j] != ':',
        decreases chars@.len() - at,
    {
        if chars[at] == ':' {
            assert(first_colon(target@, at as int));
            assert forall|other: int| first_colon(target@, other) implies other == at by {
                assert(target@[other] == ':');
                assert(target@[at as int] == ':');
            }
            return is_scheme(&chars, at, "http") || is_scheme(&chars, at, "https") || is_scheme(
                &chars,
                at,
                "tg",
            );
        }
        at += 1;
    }
    false
}

// ------------------------------------------------------------------ layers

/// Whether a span covers at least one character, and none behind the text's end.
pub open spec fn usable(span: Span, count: int) -> bool {
    span.start < span.end && span.end <= count
}

/// Document order: what starts first comes first; of spans with one start the
/// longer one; of equal ranges the one that was given first.
pub open spec fn before(spans: Seq<Span>, i: usize, j: usize) -> bool {
    let (left, right) = (spans[i as int], spans[j as int]);
    ||| left.start < right.start
    ||| left.start == right.start && left.end > right.end
    ||| left.start == right.start && left.end == right.end && i < j
}

/// A list in document order with one more span put where it belongs.
pub open spec fn placed(spans: Seq<Span>, order: Seq<usize>, i: usize) -> Seq<usize>
    decreases order.len(),
{
    if order.len() == 0 {
        seq![i]
    } else if before(spans, order.last(), i) {
        order.push(i)
    } else {
        placed(spans, order.drop_last(), i).push(order.last())
    }
}

/// The usable ones of the first `given` spans, in document order.
pub open spec fn document_order(spans: Seq<Span>, count: int, given: int) -> Seq<usize>
    decreases given,
{
    if given <= 0 {
        Seq::empty()
    } else {
        let earlier = document_order(spans, count, given - 1);
        if usable(spans[given - 1], count) {
            placed(spans, earlier, (given - 1) as usize)
        } else {
            earlier
        }
    }
}

/// Whether a span can be a link: a mention always, a link where it is allowed.
pub open spec fn anchorable(kind: SpanKind) -> bool {
    match kind {
        SpanKind::Mention(_) => true,
        SpanKind::Link(target) => allowed_link(target@),
        _ => false,
    }
}

/// Whether two ranges have a character in common.
pub open spec fn overlap(left: Span, right: Span) -> bool {
    left.start < right.end && right.start < left.end
}

/// Whether a link among the layers has a character in common with `span`.
pub open spec fn taken(spans: Seq<Span>, layers: Seq<Layer>, span: Span) -> bool {
    exists|q: int|
        0 <= q < layers.len() && (#[trigger] layers[q]).anchor && overlap(
            spans[layers[q].ordinal as int],
            span,
        )
}

/// The layers for the first `given` spans of a list: each span that can be a link
/// is one, unless an earlier link has a character in common with it.
pub open spec fn layered(spans: Seq<Span>, order: Seq<usize>, given: int) -> Seq<Layer>
    decreases given,
{
    if given <= 0 {
        Seq::empty()
    } else {
        let earlier = layered(spans, order, given - 1);
        let span = spans[order[given - 1] as int];
        earlier.push(
            Layer {
                ordinal: order[given - 1],
                anchor: anchorable(span.kind) && !taken(spans, earlier, span),
            },
        )
    }
}

/// The layers of a text with `count` characters.
pub open spec fn layers_of(spans: Seq<Span>, count: int) -> Seq<Layer> {
    let order = document_order(spans, count, spans.len() as int);
    layered(spans, order, order.len() as int)
}

/// Whether a layer lies over the character at `offset`.
pub open spec fn covers(spans: Seq<Span>, layer: Layer, offset: int) -> bool {
    spans[layer.ordinal as int].start <= offset < spans[layer.ordinal as int].end
}

/// The layers over the character at `offset`, the outermost first.
pub open spec fn covering(spans: Seq<Span>, layers: Seq<Layer>, offset: int) -> Seq<Layer> {
    layers.filter(|layer: Layer| covers(spans, layer, offset))
}

/// The layers that are open once `written` characters have been written.
pub open spec fn open_after(spans: Seq<Span>, layers: Seq<Layer>, written: int) -> Seq<Layer> {
    if written <= 0 {
        Seq::empty()
    } else {
        covering(spans, layers, written - 1)
    }
}

/// How many layers two lists have in common at their start, from `i` on.
pub open spec fn common_from(left: Seq<Layer>, right: Seq<Layer>, i: int) -> int
    decreases left.len() - i,
{
    if 0 <= i < left.len() && i < right.len() && left[i].ordinal == right[i].ordinal {
        common_from(left, right, i + 1)
    } else {
        i
    }
}

// ------------------------------------------------------------------ pieces

/// The ends of all layers of a list but the first `kept`, the innermost first.
pub open spec fn closings(layers: Seq<Layer>, kept: int) -> Seq<Piece> {
    Seq::new((layers.len() - kept) as nat, |i: int| Piece::Close(layers[layers.len() - 1 - i]))
}

/// The beginnings of all layers of a list but the first `kept`, the outermost first.
pub open spec fn openings(layers: Seq<Layer>, kept: int) -> Seq<Piece> {
    Seq::new((layers.len() - kept) as nat, |i: int| Piece::Open(layers[kept + i]))
}

/// What leads from one list of open layers to another.
pub open spec fn transition(from: Seq<Layer>, to: Seq<Layer>) -> Seq<Piece> {
    let kept = common_from(from, to, 0);
    closings(from, kept) + openings(to, kept)
}

/// What is written for the character `ch` at `offset`: the way from the layers over
/// the character before it to the layers over it, and the character.
pub open spec fn pieces_at(spans: Seq<Span>, layers: Seq<Layer>, offset: int, ch: char) -> Seq<Piece> {
    transition(open_after(spans, layers, offset), covering(spans, layers, offset)).push(
        Piece::Char(ch),
    )
}

/// The pieces of the first `count` characters.
pub open spec fn pieces(spans: Seq<Span>, layers: Seq<Layer>, text: Seq<char>, count: int) -> Seq<Piece>
    decreases count,
{
    if count <= 0 {
        Seq::empty()
    } else {
        pieces(spans, layers, text, count - 1) + pieces_at(
            spans,
            layers,
            count - 1,
            text[count - 1],
        )
    }
}

/// The pieces of a whole text.
pub open spec fn document(spans: Seq<Span>, text: Seq<char>) -> Seq<Piece> {
    let layers = layers_of(spans, text.len() as int);
    pieces(spans, layers, text, text.len() as int) + closings(
        open_after(spans, layers, text.len() as int),
        0,
    )
}

// -------------------------------------------------------------------- tags

/// How the beginning of a layer is written.
pub open spec fn opening(style: Style, layer: Layer) -> Seq<char> {
    let span = style.spans[layer.ordinal as int];
    match span.kind {
        SpanKind::Bold => "<b>"@,
        SpanKind::Italic => "<i>"@,
        SpanKind::Underline => "<u>"@,
        SpanKind::Strike => "<s>"@,
        SpanKind::Code => match style.code_background {
            None => "<tt>"@,
            Some(background) => "<span background=\""@ + escaped(background) + "\"><tt>"@,
        },
        SpanKind::Pre(_) => "<tt>"@,
        SpanKind::Link(target) => if layer.anchor {
            "<a href=\""@ + escaped(target@) + "\">"@
        } else {
            "<span>"@
        },
        SpanKind::Mention(user) => if layer.anchor {
            "<a href=\"omg-user:"@ + crate::text::decimal(user as int) + "\">"@
        } else {
            "<span>"@
        },
        SpanKind::Spoiler => if style.revealed.contains((span.start, span.end)) {
            "<span>"@
        } else {
            "<span alpha=\"1%\">"@
        },
        SpanKind::Blockquote => "<span>"@,
    }
}

/// How the end of a layer is written.
pub open spec fn closing(style: Style, layer: Layer) -> Seq<char> {
    match style.spans[layer.ordinal as int].kind {
        SpanKind::Bold => "</b>"@,
        SpanKind::Italic => "</i>"@,
        SpanKind::Underline => "</u>"@,
        SpanKind::Strike => "</s>"@,
        SpanKind::Code => if style.code_background is Some {
            "</tt></span>"@
        } else {
            "</tt>"@
        },
        SpanKind::Pre(_) => "</tt>"@,
        SpanKind::Link(_) | SpanKind::Mention(_) => if layer.anchor {
            "</a>"@
        } else {
            "</span>"@
        },
        SpanKind::Spoiler | SpanKind::Blockquote => "</span>"@,
    }
}

/// How one piece is written.
pub open spec fn piece_text(style: Style, piece: Piece) -> Seq<char> {
    match piece {
        Piece::Open(layer) => opening(style, layer),
        Piece::Close(layer) => closing(style, layer),
        Piece::Char(ch) => escaped_char(ch),
    }
}

/// How pieces are written one behind the other.
pub open spec fn written(style: Style, pieces: Seq<Piece>) -> Seq<char>
    decreases pieces.len(),
{
    if pieces.len() == 0 {
        Seq::empty()
    } else {
        written(style, pieces.drop_last()) + piece_text(style, pieces.last())
    }
}

/// The markup of a message.
pub open spec fn markup_of(style: Style, text: Seq<char>) -> Seq<char> {
    written(style, document(style.spans, text))
}

/// Whether a usable spoiler of a text with `count` characters is still hidden.
pub open spec fn hides_something(style: Style, count: int) -> bool {
    exists|i: int|
        0 <= i < style.spans.len() && usable(#[trigger] style.spans[i], count)
            && style.spans[i].kind is Spoiler && !style.revealed.contains(
            (style.spans[i].start, style.spans[i].end),
        )
}

/// Whether a text with `count` characters holds a usable quotation.
pub open spec fn quotes_something(spans: Seq<Span>, count: int) -> bool {
    exists|i: int|
        0 <= i < spans.len() && usable(#[trigger] spans[i], count) && spans[i].kind is Blockquote
}

/// What rendering returns.
pub open spec fn renders(rendered: RenderedMarkup, style: Style, text: Seq<char>) -> bool {
    &&& rendered.markup@ == markup_of(style, text)
    &&& rendered.has_spoiler == hides_something(style, text.len() as int)
    &&& rendered.has_blockquote == quotes_something(style.spans, text.len() as int)
}

// ------------------------------------------------------------------ lemmas

pub proof fn lemma_placed(spans: Seq<Span>, order: Seq<usize>, i: usize)
    ensures
        placed(spans, order, i).len() == order.len() + 1,
        forall|x: usize| #[trigger] placed(spans, order, i).contains(x) <==> order.contains(x) || x == i,
    decreases order.len(),
{
    let result = placed(spans, order, i);
    if order.len() == 0 {
        assert(result[0] == i);
    } else if before(spans, order.last(), i) {
        assert forall|x: usize| #[trigger] result.contains(x) <==> order.contains(x) || x == i by {
            if order.contains(x) {
                let at = order.index_of(x);
                assert(result[at] == x);
            }
            assert(result[order.len() as int] == i);
        }
    } else {
        let rest = order.drop_last();
        lemma_placed(spans, rest, i);
        let inner = placed(spans, rest, i);
        assert forall|x: usize| #[trigger] result.contains(x) <==> order.contains(x) || x == i by {
            if result.contains(x) {
                let at = result.index_of(x);
                if at < inner.len() {
                    assert(inner[at] == x);
                    assert(inner.contains(x));
                    if rest.contains(x) {
                        assert(order[rest.index_of(x)] == x);
                    }
                } else {
                    assert(x == order.last());
                    assert(order[order.len() - 1] == x);
                }
            }
            if order.contains(x) {
                let at = order.index_of(x);
                if at < rest.len() {
                    assert(rest[at] == x);
                    assert(inner.contains(x));
                    assert(result[inner.index_of(x)] == x);
                } else {
                    assert(result[inner.len() as int] == x);
                }
            }
            if x == i {
                assert(inner.contains(i));
                assert(result[inner.index_of(i)] == i);
            }
        }
    }
}

/// The list holds exactly the usable spans.
pub proof fn lemma_document_order(spans: Seq<Span>, count: int, given: int)
    requires
        0 <= given <= spans.len() <= usize::MAX,
    ensures
        document_order(spans, count, given).len() <= given,
        forall|x: usize|
            #[trigger] document_order(spans, count, given).contains(x) <==> x < given && usable(
                spans[x as int],
                count,
            ),
    decreases given,
{
    if given > 0 {
        lemma_document_order(spans, count, given - 1);
        if usable(spans[given - 1], count) {
            lemma_placed(
                spans,
                document_order(spans, count, given - 1),
                (given - 1) as usize,
            );
        }
        assert forall|x: usize|
            #[trigger] document_order(spans, count, given).contains(x) <==> x < given && usable(
                spans[x as int],
                count,
            ) by {
            assert(document_order(spans, count, given - 1).contains(x) <==> x < given - 1 && usable(
                spans[x as int],
                count,
            ));
        }
    }
}

pub proof fn lemma_layered(spans: Seq<Span>, order: Seq<usize>, given: int)
    requires
        0 <= given <= order.len(),
    ensures
        layered(spans, order, given).len() == given,
        forall|i: int| 0 <= i < given ==> (#[trigger] layered(spans, order, given)[i]).ordinal == order[i],
    decreases given,
{
    if given > 0 {
        lemma_layered(spans, order, given - 1);
    }
}

proof fn lemma_written_concat(style: Style, left: Seq<Piece>, right: Seq<Piece>)
    ensures
        written(style, left + right) == written(style, left) + written(style, right),
    decreases right.len(),
{
    if right.len() == 0 {
        assert(left + right =~= left);
    } else {
        lemma_written_concat(style, left, right.drop_last());
        assert((left + right).drop_last() =~= left + right.drop_last());
    }
}

/// What is written for one more character.
pub proof fn lemma_written_at(
    style: Style,
    layers: Seq<Layer>,
    earlier: Seq<Piece>,
    offset: int,
    ch: char,
)
    ensures
        ({
            let from = open_after(style.spans, layers, offset);
            let to = covering(style.spans, layers, offset);
            let kept = common_from(from, to, 0);
            written(style, earlier + pieces_at(style.spans, layers, offset, ch)) == written(
                style,
                earlier,
            ) + written(style, closings(from, kept)) + written(style, openings(to, kept))
                + escaped_char(ch)
        }),
{
    let from = open_after(style.spans, layers, offset);
    let to = covering(style.spans, layers, offset);
    let kept = common_from(from, to, 0);
    let ends = closings(from, kept);
    let begins = openings(to, kept);
    let step = pieces_at(style.spans, layers, offset, ch);
    assert(step == (ends + begins).push(Piece::Char(ch)));
    lemma_written_concat(style, earlier, step);
    lemma_written_concat(style, ends, begins);
    assert(step.drop_last() =~= ends + begins);
    assert(step.last() == Piece::Char(ch));
    assert(written(style, earlier) + (written(style, ends) + written(style, begins)
        + escaped_char(ch)) =~= written(style, earlier) + written(style, ends) + written(
        style,
        begins,
    ) + escaped_char(ch));
}

pub proof fn lemma_common(left: Seq<Layer>, right: Seq<Layer>, i: int)
    requires
        0 <= i <= left.len(),
        i <= right.len(),
    ensures
        i <= common_from(left, right, i) <= left.len(),
        common_from(left, right, i) <= right.len(),
        forall|j: int| i <= j < common_from(left, right, i) ==> left[j].ordinal == right[j].ordinal,
    decreases left.len() - i,
{
    if i < left.len() && i < right.len() && left[i].ordinal == right[i].ordinal {
        lemma_common(left, right, i + 1);
    }
}

proof fn lemma_placed_at(spans: Seq<Span>, order: Seq<usize>, i: usize, at: int)
    requires
        0 <= at <= order.len(),
        at > 0 ==> before(spans, order[at - 1], i),
        forall|j: int| at <= j < order.len() ==> !before(spans, #[trigger] order[j], i),
    ensures
        placed(spans, order, i) == order.insert(at, i),
    decreases order.len(),
{
    if order.len() == 0 {
        assert(order.insert(0, i) =~= seq![i]);
    } else if at == order.len() {
        assert(order.insert(at, i) =~= order.push(i));
    } else {
        assert(!before(spans, order[order.len() - 1], i));
        assert forall|j: int| at <= j < order.drop_last().len() implies !before(
            spans,
            #[trigger] order.drop_last()[j],
            i,
        ) by {
            assert(order.drop_last()[j] == order[j]);
        }
        lemma_placed_at(spans, order.drop_last(), i, at);
        assert(order.insert(at, i) =~= order.drop_last().insert(at, i).push(order.last()));
    }
}

// --------------------------------------------------------------- rendering

fn comes_before(spans: &[Span], i: usize, j: usize) -> (earlier: bool)
    requires
        i < spans@.len(),
        j < spans@.len(),
    ensures
        earlier == before(spans@, i, j),
{
    let left = &spans[i];
    let right = &spans[j];
    left.start < right.start || (left.start == right.start && (left.end > right.end || (left.end
        == right.end && i < j)))
}

/// The usable spans in document order.
fn order_spans(spans: &[Span], count: usize) -> (order: Vec<usize>)
    ensures
        order@ == document_order(spans@, count as int, spans@.len() as int),
        forall|i: int|
            0 <= i < order@.len() ==> #[trigger] order@[i] < spans@.len() && usable(
                spans@[order@[i] as int],
                count as int,
            ),
{
    let mut order: Vec<usize> = Vec::new();
    let total: usize = spans.len();
    let mut i: usize = 0;
    while i < total
        invariant
            i <= total,
            total == spans@.len(),
            order@ == document_order(spans@, count as int, i as int),
        decreases total - i,
    {
        proof {
            lemma_document_order(spans@, count as int, i as int);
        }
        if spans[i].start < spans[i].end && spans[i].end <= count {
            let mut at: usize = order.len();
            assert forall|j: int| 0 <= j < order@.len() implies #[trigger] order@[j] < i by {
                assert(order@.contains(order@[j]));
            }
            while at > 0 && !comes_before(spans, order[at - 1], i)
                invariant
                    at <= order@.len(),
                    i < spans@.len(),
                    forall|j: int| 0 <= j < order@.len() ==> #[trigger] order@[j] < i,
                    forall|j: int| at <= j < order@.len() ==> !before(spans@, #[trigger] order@[j], i),
                decreases at,
            {
                at -= 1;
            }
            proof {
                lemma_placed_at(spans@, order@, i, at as int);
            }
            order.insert(at, i);
        }
        i += 1;
    }
    proof {
        lemma_document_order(spans@, count as int, i as int);
        assert forall|j: int| 0 <= j < order@.len() implies #[trigger] order@[j] < spans@.len() && usable(
            spans@[order@[j] as int],
            count as int,
        ) by {
            assert(order@.contains(order@[j]));
        }
    }
    order
}

fn can_anchor(kind: &SpanKind) -> (answer: bool)
    ensures
        answer == anchorable(*kind),
{
    match kind {
        SpanKind::Mention(_) => true,
        SpanKind::Link(target) => is_allowed_link(target),
        _ => false,
    }
}

fn is_taken(spans: &[Span], layers: &Vec<Layer>, span: &Span) -> (answer: bool)
    requires
        forall|i: int| 0 <= i < layers@.len() ==> (#[trigger] layers@[i]).ordinal < spans@.len(),
    ensures
        answer == taken(spans@, layers@, *span),
{
    let mut q: usize = 0;
    while q < layers.len()
        invariant
            q <= layers@.len(),
            forall|i: int| 0 <= i < layers@.len() ==> (#[trigger] layers@[i]).ordinal < spans@.len(),
            forall|j: int|
                0 <= j < q ==> !((#[trigger] layers@[j]).anchor && overlap(
                    spans@[layers@[j].ordinal as int],
                    *span,
                )),
        decreases layers@.len() - q,
    {
        let layer = layers[q];
        let other = &spans[layer.ordinal];
        if layer.anchor && other.start < span.end && span.start < other.end {
            assert(layers@[q as int].anchor && overlap(spans@[layers@[q as int].ordinal as int], *span));
            return true;
        }
        q += 1;
    }
    false
}

/// The layers of a text, in document order. No markup defines nested links: the
/// first one in document order owns a range that several could have, and the
/// others are written as ordinary spans. Spoilers are never links.
fn layer_spans(spans: &[Span], count: usize) -> (layers: Vec<Layer>)
    ensures
        layers@ == layers_of(spans@, count as int),
        forall|i: int| 0 <= i < layers@.len() ==> (#[trigger] layers@[i]).ordinal < spans@.len(),
{
    let order = order_spans(spans, count);
    let mut layers: Vec<Layer> = Vec::new();
    let mut i: usize = 0;
    while i < order.len()
        invariant
            i <= order@.len(),
            forall|j: int| 0 <= j < order@.len() ==> #[trigger] order@[j] < spans@.len(),
            layers@ == layered(spans@, order@, i as int),
            forall|j: int| 0 <= j < layers@.len() ==> (#[trigger] layers@[j]).ordinal < spans@.len(),
        decreases order@.len() - i,
    {
        let span = &spans[order[i]];
        let anchor = can_anchor(&span.kind) && !is_taken(spans, &layers, span);
        layers.push(Layer { ordinal: order[i], anchor });
        i += 1;
    }
    layers
}

/// The layers over one character.
fn layers_at(spans: &[Span], layers: &Vec<Layer>, offset: usize) -> (found: Vec<Layer>)
    requires
        forall|i: int| 0 <= i < layers@.len() ==> (#[trigger] layers@[i]).ordinal < spans@.len(),
    ensures
        found@ == covering(spans@, layers@, offset as int),
        forall|i: int| 0 <= i < found@.len() ==> (#[trigger] found@[i]).ordinal < spans@.len(),
{
    let mut found: Vec<Layer> = Vec::new();
    let mut i: usize = 0;
    let ghost over = |layer: Layer| covers(spans@, layer, offset as int);
    proof {
        reveal(Seq::filter);
        assert(layers@.take(0) =~= Seq::<Layer>::empty());
    }
    while i < layers.len()
        invariant
            i <= layers@.len(),
            forall|j: int| 0 <= j < layers@.len() ==> (#[trigger] layers@[j]).ordinal < spans@.len(),
            over == (|layer: Layer| covers(spans@, layer, offset as int)),
            found@ == layers@.take(i as int).filter(over),
            forall|j: int| 0 <= j < found@.len() ==> (#[trigger] found@[j]).ordinal < spans@.len(),
        decreases layers@.len() - i,
    {
        let layer = layers[i];
        let span = &spans[layer.ordinal];
        proof {
            reveal(Seq::filter);
            assert(layers@.take(i + 1).drop_last() =~= layers@.take(i as int));
            assert(layers@.take(i + 1).last() == layer);
        }
        if span.start <= offset && offset < span.end {
            found.push(layer);
        }
        i += 1;
    }
    assert(layers@.take(i as int) =~= layers@);
    found
}

/// How many layers two lists have in common at their start.
fn common_start(left: &Vec<Layer>, right: &Vec<Layer>) -> (common: usize)
    ensures
        common == common_from(left@, right@, 0),
        common <= left@.len(),
        common <= right@.len(),
{
    let mut i: usize = 0;
    while i < left.len() && i < right.len() && left[i].ordinal == right[i].ordinal
        invariant
            i <= left@.len(),
            i <= right@.len(),
            common_from(left@, right@, i as int) == common_from(left@, right@, 0),
        decreases left@.len() - i,
    {
        i += 1;
    }
    i
}

/// Calls `HashSet::contains`. Pairs of `usize` compare and hash by their values,
/// so the call answers whether the set holds the pair.
#[verifier::external_body]
fn is_revealed(revealed: &HashSet<(usize, usize)>, start: usize, end: usize) -> (answer: bool)
    ensures
        answer == revealed@.contains((start, end)),
{
    revealed.contains(&(start, end))
}

/// The style that rendering is asked for.
pub open spec fn style_of(
    spans: Seq<Span>,
    revealed: Set<(usize, usize)>,
    code_background: Option<&str>,
) -> Style {
    Style {
        spans,
        revealed,
        code_background: match code_background {
            Some(background) => Some(background@),
            None => None,
        },
    }
}

/// Writes the beginning of a layer behind `out`.
pub fn open_tag(
    spans: &[Span],
    layer: Layer,
    revealed: &HashSet<(usize, usize)>,
    code_background: Option<&str>,
    out: &mut String,
)
    requires
        layer.ordinal < spans@.len(),
    ensures
        final(out)@ == old(out)@ + opening(style_of(spans@, revealed@, code_background), layer),
{
    let span = &spans[layer.ordinal];
    match &span.kind {
        SpanKind::Bold => out.push_str("<b>"),
        SpanKind::Italic => out.push_str("<i>"),
        SpanKind::Underline => out.push_str("<u>"),
        SpanKind::Strike => out.push_str("<s>"),
        SpanKind::Code => match code_background {
            None => out.push_str("<tt>"),
            Some(background) => {
                out.push_str("<span background=\"");
                let value = escape_attribute(background);
                out.push_str(&value);
                out.push_str("\"><tt>");
                assert(out@ =~= old(out)@ + ("<span background=\""@ + escaped(background@)
                    + "\"><tt>"@));
            },
        },
        SpanKind::Pre(_) => out.push_str("<tt>"),
        SpanKind::Link(target) => if layer.anchor {
            out.push_str("<a href=\"");
            let value = escape_attribute(target);
            out.push_str(&value);
            out.push_str("\">");
            assert(out@ =~= old(out)@ + ("<a href=\""@ + escaped(target@) + "\">"@));
        } else {
            out.push_str("<span>");
        },
        SpanKind::Mention(user) => if layer.anchor {
            out.push_str("<a href=\"omg-user:");
            push_integer(out, *user);
            out.push_str("\">");
            assert(out@ =~= old(out)@ + ("<a href=\"omg-user:"@ + crate::text::decimal(*user as int)
                + "\">"@));
        } else {
            out.push_str("<span>");
        },
        SpanKind::Spoiler => if is_revealed(revealed, span.start, span.end) {
            out.push_str("<span>");
        } else {
            out.push_str("<span alpha=\"1%\">");
        },
        SpanKind::Blockquote => out.push_str("<span>"),
    }
}

/// Writes the end of a layer behind `out`.
pub fn close_tag(spans: &[Span], layer: Layer, code_background: Option<&str>, out: &mut String)
    requires
        layer.ordinal < spans@.len(),
    ensures
        forall|revealed: Set<(usize, usize)>|
            final(out)@ == old(out)@ + #[trigger] closing(
                style_of(spans@, revealed, code_background),
                layer,
            ),
{
    match &spans[layer.ordinal].kind {
        SpanKind::Bold => out.push_str("</b>"),
        SpanKind::Italic => out.push_str("</i>"),
        SpanKind::Underline => out.push_str("</u>"),
        SpanKind::Strike => out.push_str("</s>"),
        SpanKind::Code => if code_background.is_some() {
            out.push_str("</tt></span>");
        } else {
            out.push_str("</tt>");
        },
        SpanKind::Pre(_) => out.push_str("</tt>"),
        SpanKind::Link(_) | SpanKind::Mention(_) => if layer.anchor {
            out.push_str("</a>");
        } else {
            out.push_str("</span>");
        },
        SpanKind::Spoiler | SpanKind::Blockquote => out.push_str("</span>"),
    }
}

/// Ends all layers of a list but the first `kept`.
fn close_layers(
    spans: &[Span],
    layers: &Vec<Layer>,
    kept: usize,
    code_background: Option<&str>,
    out: &mut String,
)
    requires
        kept <= layers@.len(),
        forall|i: int| 0 <= i < layers@.len() ==> (#[trigger] layers@[i]).ordinal < spans@.len(),
    ensures
        forall|revealed: Set<(usize, usize)>|
            final(out)@ == old(out)@ + #[trigger] written(
                style_of(spans@, revealed, code_background),
                closings(layers@, kept as int),
            ),
{
    let mut left: usize = layers.len();
    let ghost all = closings(layers@, kept as int);
    assert forall|revealed: Set<(usize, usize)>|
        out@ == old(out)@ + #[trigger] written(
            style_of(spans@, revealed, code_background),
            all.take(0),
        ) by {
        assert(out@ =~= old(out)@ + Seq::<char>::empty());
    }
    while left > kept
        invariant
            kept <= left <= layers@.len(),
            all == closings(layers@, kept as int),
            forall|i: int| 0 <= i < layers@.len() ==> (#[trigger] layers@[i]).ordinal < spans@.len(),
            forall|revealed: Set<(usize, usize)>|
                out@ == old(out)@ + #[trigger] written(
                    style_of(spans@, revealed, code_background),
                    all.take(layers@.len() - left),
                ),
        decreases left,
    {
        let ghost before_close = out@;
        let ghost done = layers@.len() - left;
        left -= 1;
        close_tag(spans, layers[left], code_background, out);
        assert forall|revealed: Set<(usize, usize)>|
            out@ == old(out)@ + #[trigger] written(
                style_of(spans@, revealed, code_background),
                all.take(layers@.len() - left),
            ) by {
            let style = style_of(spans@, revealed, code_background);
            let now = all.take(layers@.len() - left);
            assert(now.drop_last() =~= all.take(done));
            assert(now.last() == Piece::Close(layers@[left as int]));
            assert(before_close == old(out)@ + written(style, now.drop_last()));
            assert(out@ == before_close + closing(style, layers@[left as int]));
            assert(out@ =~= old(out)@ + written(style, now));
        }
    }
    assert(all.take(layers@.len() - left) =~= all);
}

/// Begins all layers of a list but the first `kept`.
fn open_layers(
    spans: &[Span],
    layers: &Vec<Layer>,
    kept: usize,
    revealed: &HashSet<(usize, usize)>,
    code_background: Option<&str>,
    out: &mut String,
)
    requires
        kept <= layers@.len(),
        forall|i: int| 0 <= i < layers@.len() ==> (#[trigger] layers@[i]).ordinal < spans@.len(),
    ensures
        final(out)@ == old(out)@ + written(
            style_of(spans@, revealed@, code_background),
            openings(layers@, kept as int),
        ),
{
    let mut next: usize = kept;
    let ghost style = style_of(spans@, revealed@, code_background);
    let ghost all = openings(layers@, kept as int);
    assert(out@ =~= old(out)@ + written(style, all.take(0)));
    while next < layers.len()
        invariant
            kept <= next <= layers@.len(),
            all == openings(layers@, kept as int),
            style == style_of(spans@, revealed@, code_background),
            forall|i: int| 0 <= i < layers@.len() ==> (#[trigger] layers@[i]).ordinal < spans@.len(),
            out@ == old(out)@ + written(style, all.take(next - kept)),
        decreases layers@.len() - next,
    {
        open_tag(spans, layers[next], revealed, code_background, out);
        next += 1;
        assert(all.take(next - kept).drop_last() =~= all.take(next - kept - 1));
        assert(all.take(next - kept).last() == Piece::Open(layers@[next - 1]));
        assert(out@ =~= old(out)@ + written(style, all.take(next - kept)));
    }
    assert(all.take(next - kept) =~= all);
}

fn hides_spoiler(spans: &[Span], revealed: &HashSet<(usize, usize)>, count: usize) -> (answer: bool)
    ensures
        forall|code_background: Option<&str>|
            answer == #[trigger] hides_something(
                style_of(spans@, revealed@, code_background),
                count as int,
            ),
{
    let mut i: usize = 0;
    while i < spans.len()
        invariant
            i <= spans@.len(),
            forall|j: int|
                0 <= j < i ==> !(usable(#[trigger] spans@[j], count as int) && spans@[j].kind is Spoiler
                    && !revealed@.contains((spans@[j].start, spans@[j].end))),
        decreases spans@.len() - i,
    {
        let span = &spans[i];
        if span.start < span.end && span.end <= count && matches!(span.kind, SpanKind::Spoiler)
            && !is_revealed(revealed, span.start, span.end) {
            assert(usable(spans@[i as int], count as int));
            return true;
        }
        i += 1;
    }
    false
}

fn holds_quotation(spans: &[Span], count: usize) -> (answer: bool)
    ensures
        answer == quotes_something(spans@, count as int),
{
    let mut i: usize = 0;
    while i < spans.len()
        invariant
            i <= spans@.len(),
            forall|j: int|
                0 <= j < i ==> !(usable(#[trigger] spans@[j], count as int)
                    && spans@[j].kind is Blockquote),
        decreases spans@.len() - i,
    {
        let span = &spans[i];
        if span.start < span.end && span.end <= count && matches!(span.kind, SpanKind::Blockquote) {
            assert(usable(spans@[i as int], count as int));
            return true;
        }
        i += 1;
    }
    false
}

/// Renders with selected spoiler ranges revealed, and inline code on a background
/// where one is given.
pub fn render_impl(
    text: &str,
    spans: &[Span],
    revealed: &HashSet<(usize, usize)>,
    code_background: Option<&str>,
) -> (rendered: RenderedMarkup)
    ensures
        renders(rendered, style_of(spans@, revealed@, code_background), text@),
{
    let chars = characters(text);
    let count: usize = chars.len();
    let layers = layer_spans(spans, count);
    let has_spoiler = hides_spoiler(spans, revealed, count);
    let has_blockquote = holds_quotation(spans, count);
    let ghost style = style_of(spans@, revealed@, code_background);

    let mut out = String::new();
    let mut active: Vec<Layer> = Vec::new();
    let mut offset: usize = 0;
    while offset < count
        invariant
            offset <= count,
            count == chars@.len(),
            chars@ == text@,
            style == style_of(spans@, revealed@, code_background),
            layers@ == layers_of(spans@, count as int),
            forall|i: int| 0 <= i < layers@.len() ==> (#[trigger] layers@[i]).ordinal < spans@.len(),
            forall|i: int| 0 <= i < active@.len() ==> (#[trigger] active@[i]).ordinal < spans@.len(),
            active@ == open_after(spans@, layers@, offset as int),
            out@ == written(style, pieces(spans@, layers@, text@, offset as int)),
        decreases count - offset,
    {
        let desired = layers_at(spans, &layers, offset);
        let common: usize = common_start(&active, &desired);
        let ghost start = out@;
        let ghost ends = closings(active@, common as int);
        let ghost begins = openings(desired@, common as int);
        close_layers(spans, &active, common, code_background, &mut out);
        assert(out@ == start + written(style, ends));
        open_layers(spans, &desired, common, revealed, code_background, &mut out);
        let ch = chars[offset];
        escape_char(ch, &mut out);
        proof {
            let earlier = pieces(spans@, layers@, text@, offset as int);
            lemma_written_at(style, layers@, earlier, offset as int, ch);
            assert(pieces(spans@, layers@, text@, offset + 1) == earlier + pieces_at(
                spans@,
                layers@,
                offset as int,
                ch,
            ));
        }
        active = desired;
        offset += 1;
    }
    let ghost body = out@;
    close_layers(spans, &active, 0, code_background, &mut out);
    proof {
        lemma_written_concat(
            style,
            pieces(spans@, layers@, text@, offset as int),
            closings(active@, 0),
        );
        assert(out@ == body + written(style, closings(active@, 0)));
    }

    RenderedMarkup { markup: out, has_spoiler, has_blockquote }
}

/// Convert `text` plus Telegram character-offset spans to Pango markup.
pub fn render(text: &str, spans: &[Span]) -> (rendered: RenderedMarkup)
    ensures
        renders(rendered, style_of(spans@, Set::empty(), None), text@),
{
    render_with_revealed(text, spans, &HashSet::new())
}

/// Render with selected spoiler ranges revealed.  The range key is the
/// half-open character offset pair from the backend.
pub fn render_with_revealed(
    text: &str,
    spans: &[Span],
    revealed: &HashSet<(usize, usize)>,
) -> (rendered: RenderedMarkup)
    ensures
        renders(rendered, style_of(spans@, revealed@, None), text@),
{
    render_impl(text, spans, revealed, None)
}

/// Render inline code on the current theme's darker background. The value is
/// supplied by the message view from the theme's colors; Pango cannot resolve
/// GTK CSS variables inside markup attributes.
pub fn render_with_code_background(
    text: &str,
    spans: &[Span],
    revealed: &HashSet<(usize, usize)>,
    darker_background: &str,
) -> (rendered: RenderedMarkup)
    ensures
        renders(rendered, style_of(spans@, revealed@, Some(darker_background)), text@),
{
    render_impl(text, spans, revealed, Some(darker_background))
}

} // verus!
