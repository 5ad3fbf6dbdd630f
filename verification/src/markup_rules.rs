//! What becomes of each span of a message: which spans are drawn and in what order,
//! which of them are links, and how each kind is written.

use vstd::prelude::*;

use crate::lists::{lemma_kept, lemma_kept_in_order};
use crate::markup::{
    allowed_link, before, closing, closings, common_from, covering, covers,
    document_order, escaped, escaped_char, first_colon, hides_something, layered, layers_of,
    lemma_document_order, lemma_layered, lemma_placed, markup_of, open_after, opening, openings,
    overlap, pieces, pieces_at, placed, quotes_something, renders,
    same_but_for_case, style_of, taken, transition, usable, written, Layer, Piece, RenderedMarkup,
    Style,
};
use crate::markup_laws::{has_layer, law_layers_are_the_usable_spans};
use crate::text::decimal;
use crate::tg::{Span, SpanKind};

verus! {

/// Whether a span holds the character at an offset.
pub open spec fn holds(span: Span, offset: int) -> bool {
    span.start <= offset < span.end
}

// --------------------------------------------------------------------- links

proof fn lemma_layers_in_turn(spans: Seq<Span>, order: Seq<usize>, given: int, q: int)
    requires
        0 <= q < given <= order.len(),
    ensures
        layered(spans, order, given).take(q) == layered(spans, order, q),
        layered(spans, order, given)[q] == layered(spans, order, q + 1)[q],
    decreases given,
{
    lemma_layered(spans, order, given);
    lemma_layered(spans, order, given - 1);
    let layers = layered(spans, order, given);
    let earlier = layered(spans, order, given - 1);
    if q < given - 1 {
        lemma_layers_in_turn(spans, order, given - 1, q);
        assert(layers.take(q) =~= earlier.take(q));
    } else {
        assert(layers.take(q) =~= earlier);
    }
}

/// A mention or an allowed link becomes a link exactly where it has no character in
/// common with a link before it.
pub proof fn law_first_link_wins(spans: Seq<Span>, count: int, q: int)
    requires
        spans.len() <= usize::MAX,
        0 <= q < layers_of(spans, count).len(),
    ensures
        ({
            let layers = layers_of(spans, count);
            let span = spans[layers[q].ordinal as int];
            layers[q].anchor <==> (span.kind is Mention || (span.kind matches SpanKind::Link(
                target,
            ) && allowed_link(target@))) && forall|p: int, offset: int|
                0 <= p < q && layers[p].anchor && #[trigger] holds(
                    spans[layers[p].ordinal as int],
                    offset,
                ) ==> !holds(span, offset)
        }),
{
    let order = document_order(spans, count, spans.len() as int);
    let layers = layers_of(spans, count);
    lemma_layered(spans, order, order.len() as int);
    lemma_layers_in_turn(spans, order, order.len() as int, q);
    lemma_layered(spans, order, q);
    let earlier = layered(spans, order, q);
    let span = spans[order[q] as int];
    law_layers_are_the_usable_spans(spans, count);
    assert forall|p: int| 0 <= p < q implies #[trigger] layers[p] == earlier[p] by {
        assert(layers.take(q)[p] == layers[p]);
    }
    assert(has_layer(layers, layers[q].ordinal));
    let free = forall|p: int, offset: int|
        0 <= p < q && layers[p].anchor && #[trigger] holds(
            spans[layers[p].ordinal as int],
            offset,
        ) ==> !holds(span, offset);
    if taken(spans, earlier, span) {
        let p = choose|p: int|
            0 <= p < earlier.len() && (#[trigger] earlier[p]).anchor && overlap(
                spans[earlier[p].ordinal as int],
                span,
            );
        assert(layers[p] == earlier[p]);
        assert(has_layer(layers, layers[p].ordinal));
        let other = spans[layers[p].ordinal as int];
        let offset = if other.start < span.start { span.start as int } else { other.start as int };
        assert(holds(spans[layers[p].ordinal as int], offset));
        assert(holds(span, offset));
        assert(!free);
    } else {
        assert(free) by {
            assert forall|p: int, offset: int|
                0 <= p < q && layers[p].anchor && #[trigger] holds(
                    spans[layers[p].ordinal as int],
                    offset,
                ) implies !holds(span, offset) by {
                assert(layers[p] == earlier[p]);
                assert(earlier[p].anchor);
            }
        }
    }
}

/// Every mention and every allowed link within the text that has no character in
/// common with another one is a link.
pub proof fn law_links_apart_are_links(spans: Seq<Span>, count: int, i: int)
    requires
        spans.len() <= usize::MAX,
        0 <= i < spans.len(),
        spans[i].start < spans[i].end <= count,
        spans[i].kind is Mention || (spans[i].kind matches SpanKind::Link(target) && allowed_link(
            target@,
        )),
        forall|j: int, offset: int|
            0 <= j < spans.len() && j != i && spans[j].start < spans[j].end <= count && (
            spans[j].kind is Mention || (spans[j].kind matches SpanKind::Link(target)
                && allowed_link(target@))) && #[trigger] holds(spans[j], offset) ==> !holds(
                spans[i],
                offset,
            ),
    ensures
        exists|q: int|
            0 <= q < layers_of(spans, count).len() && (#[trigger] layers_of(spans, count)[q])
                == (Layer { ordinal: i as usize, anchor: true }),
        forall|q: int|
            0 <= q < layers_of(spans, count).len() && (#[trigger] layers_of(spans, count)[q]).ordinal
                == i ==> layers_of(spans, count)[q].anchor,
{
    let layers = layers_of(spans, count);
    law_layers_are_the_usable_spans(spans, count);
    assert forall|q: int|
        0 <= q < layers.len() && (#[trigger] layers[q]).ordinal == i implies layers[q].anchor by {
        law_first_link_wins(spans, count, q);
        assert forall|p: int, offset: int|
            0 <= p < q && layers[p].anchor && #[trigger] holds(
                spans[layers[p].ordinal as int],
                offset,
            ) implies !holds(spans[i], offset) by {
            let j = layers[p].ordinal as int;
            law_first_link_wins(spans, count, p);
            assert(has_layer(layers, layers[p].ordinal));
            assert(j != i);
            assert(holds(spans[j], offset));
        }
    }
    assert(has_layer(layers, i as usize));
    let q = choose|q: int| 0 <= q < layers.len() && (#[trigger] layers[q]).ordinal == i as usize;
    assert(layers[q] == Layer { ordinal: i as usize, anchor: true });
}

/// Whether a letter is this one, small or large.
pub open spec fn either(ch: char, small: char, large: char) -> bool {
    ch == small || ch == large
}

proof fn lemma_lower(ch: char)
    ensures
        crate::markup::ascii_lower(ch) == crate::markup::ascii_lower('h') <==> either(ch, 'h', 'H'),
        crate::markup::ascii_lower(ch) == crate::markup::ascii_lower('t') <==> either(ch, 't', 'T'),
        crate::markup::ascii_lower(ch) == crate::markup::ascii_lower('p') <==> either(ch, 'p', 'P'),
        crate::markup::ascii_lower(ch) == crate::markup::ascii_lower('s') <==> either(ch, 's', 'S'),
        crate::markup::ascii_lower(ch) == crate::markup::ascii_lower('g') <==> either(ch, 'g', 'G'),
{
}

/// The links that may be followed begin with `http:`, `https:` or `tg:`, in whatever
/// case, and no others may.
pub proof fn law_allowed_links_have_known_schemes(target: Seq<char>)
    ensures
        allowed_link(target) <==> {
            ||| target.len() >= 5 && either(target[0], 'h', 'H') && either(target[1], 't', 'T')
                && either(target[2], 't', 'T') && either(target[3], 'p', 'P') && target[4] == ':'
            ||| target.len() >= 6 && either(target[0], 'h', 'H') && either(target[1], 't', 'T')
                && either(target[2], 't', 'T') && either(target[3], 'p', 'P') && either(
                target[4],
                's',
                'S',
            ) && target[5] == ':'
            ||| target.len() >= 3 && either(target[0], 't', 'T') && either(target[1], 'g', 'G')
                && target[2] == ':'
        },
{
    reveal_strlit("http");
    reveal_strlit("https");
    reveal_strlit("tg");
    assert forall|ch: char| true implies (crate::markup::ascii_lower(ch)
        == crate::markup::ascii_lower('h') <==> #[trigger] either(ch, 'h', 'H')) by {
        lemma_lower(ch);
    }
    assert forall|ch: char| true implies (crate::markup::ascii_lower(ch)
        == crate::markup::ascii_lower('t') <==> #[trigger] either(ch, 't', 'T')) by {
        lemma_lower(ch);
    }
    assert forall|ch: char| true implies (crate::markup::ascii_lower(ch)
        == crate::markup::ascii_lower('p') <==> #[trigger] either(ch, 'p', 'P')) by {
        lemma_lower(ch);
    }
    assert forall|ch: char| true implies (crate::markup::ascii_lower(ch)
        == crate::markup::ascii_lower('s') <==> #[trigger] either(ch, 's', 'S')) by {
        lemma_lower(ch);
    }
    assert forall|ch: char| true implies (crate::markup::ascii_lower(ch)
        == crate::markup::ascii_lower('g') <==> #[trigger] either(ch, 'g', 'G')) by {
        lemma_lower(ch);
    }
    if allowed_link(target) {
        let at = choose|at: int|
            first_colon(target, at) && crate::markup::launchable_scheme(target.take(at));
        let scheme = target.take(at);
        assert(forall|i: int| 0 <= i < at ==> scheme[i] == target[i]);
        if same_but_for_case(scheme, "http"@) {
            assert(scheme[0] == target[0] && scheme[1] == target[1] && scheme[2] == target[2]
                && scheme[3] == target[3]);
        } else if same_but_for_case(scheme, "https"@) {
            assert(scheme[0] == target[0] && scheme[1] == target[1] && scheme[2] == target[2]
                && scheme[3] == target[3] && scheme[4] == target[4]);
        } else {
            assert(same_but_for_case(scheme, "tg"@));
            assert(scheme[0] == target[0] && scheme[1] == target[1]);
        }
    }
    if target.len() >= 5 && either(target[0], 'h', 'H') && either(target[1], 't', 'T') && either(
        target[2],
        't',
        'T',
    ) && either(target[3], 'p', 'P') && target[4] == ':' {
        assert(first_colon(target, 4));
        assert(same_but_for_case(target.take(4), "http"@));
    }
    if target.len() >= 6 && either(target[0], 'h', 'H') && either(target[1], 't', 'T') && either(
        target[2],
        't',
        'T',
    ) && either(target[3], 'p', 'P') && either(target[4], 's', 'S') && target[5] == ':' {
        assert(first_colon(target, 5));
        assert(same_but_for_case(target.take(5), "https"@));
    }
    if target.len() >= 3 && either(target[0], 't', 'T') && either(target[1], 'g', 'G') && target[2]
        == ':' {
        assert(first_colon(target, 2));
        assert(same_but_for_case(target.take(2), "tg"@));
    }
}

// -------------------------------------------------------------------- layers

/// A span is drawn exactly where it holds a character and ends within the text.
pub proof fn law_spans_within_the_text_are_drawn(spans: Seq<Span>, count: int, i: int)
    requires
        spans.len() <= usize::MAX,
        0 <= i < spans.len(),
    ensures
        (exists|q: int|
            0 <= q < layers_of(spans, count).len() && (#[trigger] layers_of(spans, count)[q]).ordinal
                == i) <==> spans[i].start < spans[i].end && spans[i].end <= count,
{
    let layers = layers_of(spans, count);
    law_layers_are_the_usable_spans(spans, count);
    if spans[i].start < spans[i].end && spans[i].end <= count {
        assert(has_layer(layers, i as usize));
    }
    if exists|q: int| 0 <= q < layers.len() && (#[trigger] layers[q]).ordinal == i {
        let q = choose|q: int| 0 <= q < layers.len() && (#[trigger] layers[q]).ordinal == i;
        assert(has_layer(layers, i as usize));
    }
}

spec fn in_turn(spans: Seq<Span>, order: Seq<usize>) -> bool {
    forall|p: int, q: int|
        0 <= p < q < order.len() ==> before(spans, #[trigger] order[p], #[trigger] order[q])
}

proof fn lemma_placed_in_turn(spans: Seq<Span>, order: Seq<usize>, i: usize)
    requires
        in_turn(spans, order),
        !order.contains(i),
    ensures
        in_turn(spans, placed(spans, order, i)),
    decreases order.len(),
{
    let result = placed(spans, order, i);
    if order.len() > 0 {
        if before(spans, order.last(), i) {
            assert forall|p: int, q: int| 0 <= p < q < result.len() implies before(
                spans,
                #[trigger] result[p],
                #[trigger] result[q],
            ) by {
                if q == order.len() && p < order.len() - 1 {
                    assert(before(spans, order[p], order[order.len() - 1]));
                }
            }
        } else {
            let rest = order.drop_last();
            assert(order.last() != i) by {
                assert(order[order.len() - 1] != i);
            }
            assert(!rest.contains(i)) by {
                if rest.contains(i) {
                    assert(order[rest.index_of(i)] == i);
                }
            }
            lemma_placed_in_turn(spans, rest, i);
            lemma_placed(spans, rest, i);
            let inner = placed(spans, rest, i);
            assert forall|p: int, q: int| 0 <= p < q < result.len() implies before(
                spans,
                #[trigger] result[p],
                #[trigger] result[q],
            ) by {
                if q == inner.len() {
                    assert(inner.contains(inner[p]));
                    assert(rest.contains(inner[p]) || inner[p] == i);
                    if rest.contains(inner[p]) {
                        let at = rest.index_of(inner[p]);
                        assert(before(spans, order[at], order[order.len() - 1]));
                    }
                } else {
                    assert(result[p] == inner[p] && result[q] == inner[q]);
                }
            }
        }
    }
}

proof fn lemma_document_in_turn(spans: Seq<Span>, count: int, given: int)
    requires
        0 <= given <= spans.len() <= usize::MAX,
    ensures
        in_turn(spans, document_order(spans, count, given)),
    decreases given,
{
    if given > 0 {
        lemma_document_in_turn(spans, count, given - 1);
        lemma_document_order(spans, count, given - 1);
        if usable(spans[given - 1], count) {
            lemma_placed_in_turn(
                spans,
                document_order(spans, count, given - 1),
                (given - 1) as usize,
            );
        }
    }
}

/// Spans are drawn from where they begin, at one place the longer one around the
/// shorter, and of two with the same range the one given first around the other.
pub proof fn law_longer_spans_go_around(spans: Seq<Span>, count: int, p: int, q: int)
    requires
        spans.len() <= usize::MAX,
        0 <= p < q < layers_of(spans, count).len(),
    ensures
        ({
            let (one, two) = (layers_of(spans, count)[p].ordinal, layers_of(spans, count)[q].ordinal);
            let (outer, inner) = (spans[one as int], spans[two as int]);
            ||| outer.start < inner.start
            ||| outer.start == inner.start && outer.end > inner.end
            ||| outer.start == inner.start && outer.end == inner.end && one < two
        }),
{
    let order = document_order(spans, count, spans.len() as int);
    lemma_document_in_turn(spans, count, spans.len() as int);
    lemma_layered(spans, order, order.len() as int);
    let layers = layers_of(spans, count);
    assert(layers[p].ordinal == order[p] && layers[q].ordinal == order[q]);
    assert(before(spans, order[p], order[q]));
}

/// A layer is open around a character exactly where its span holds the character.
pub proof fn law_layers_lie_over_their_characters(
    spans: Seq<Span>,
    layers: Seq<Layer>,
    offset: int,
    layer: Layer,
)
    requires
        layers.contains(layer),
    ensures
        covering(spans, layers, offset).contains(layer) <==> spans[layer.ordinal as int].start
            <= offset && offset < spans[layer.ordinal as int].end,
        forall|other: Layer|
            covering(spans, layers, offset).contains(other) ==> #[trigger] layers.contains(other),
{
    lemma_kept(layers, |one: Layer| covers(spans, one, offset));
}

// ---------------------------------------------------------------------- tags

/// Each kind of span is written with tags of its own.
pub proof fn law_kinds_have_their_tags(style: Style, layer: Layer)
    ensures
        ({
            let span = style.spans[layer.ordinal as int];
            let (open, close) = (opening(style, layer), closing(style, layer));
            match span.kind {
                SpanKind::Bold => open == "<b>"@ && close == "</b>"@,
                SpanKind::Italic => open == "<i>"@ && close == "</i>"@,
                SpanKind::Underline => open == "<u>"@ && close == "</u>"@,
                SpanKind::Strike => open == "<s>"@ && close == "</s>"@,
                SpanKind::Pre(_) => open == "<tt>"@ && close == "</tt>"@,
                SpanKind::Blockquote => open == "<span>"@ && close == "</span>"@,
                SpanKind::Code => {
                    &&& style.code_background is None ==> open == "<tt>"@ && close == "</tt>"@
                    &&& style.code_background matches Some(background) ==> open
                        == "<span background=\""@ + escaped(background) + "\"><tt>"@ && close
                        == "</tt></span>"@
                },
                SpanKind::Spoiler => {
                    &&& close == "</span>"@
                    &&& style.revealed.contains((span.start, span.end)) ==> open == "<span>"@
                    &&& !style.revealed.contains((span.start, span.end)) ==> open
                        == "<span alpha=\"1%\">"@
                },
                SpanKind::Link(target) => {
                    &&& layer.anchor ==> open == "<a href=\""@ + escaped(target@) + "\">"@ && close
                        == "</a>"@
                    &&& !layer.anchor ==> open == "<span>"@ && close == "</span>"@
                },
                SpanKind::Mention(user) => {
                    &&& layer.anchor ==> open == "<a href=\"omg-user:"@ + decimal(user as int)
                        + "\">"@ && close == "</a>"@
                    &&& !layer.anchor ==> open == "<span>"@ && close == "</span>"@
                },
            }
        }),
{
}

/// Texts are escaped character by character: the five characters that markup knows
/// become its entities and all others stay.
pub proof fn law_characters_are_escaped_alone(front: Seq<char>, ch: char, back: Seq<char>)
    ensures
        escaped(front + back) == escaped(front) + escaped(back),
        escaped(Seq::empty()) == Seq::<char>::empty(),
        escaped(seq!['&']) == "&amp;"@,
        escaped(seq!['<']) == "&lt;"@,
        escaped(seq!['>']) == "&gt;"@,
        escaped(seq!['\'']) == "&apos;"@,
        escaped(seq!['"']) == "&quot;"@,
        ch != '&' && ch != '<' && ch != '>' && ch != '\'' && ch != '"' ==> escaped(seq![ch]) == seq![
            ch,
        ],
    decreases back.len(),
{
    lemma_escaped_one('&');
    lemma_escaped_one('<');
    lemma_escaped_one('>');
    lemma_escaped_one('\'');
    lemma_escaped_one('"');
    lemma_escaped_one(ch);
    if back.len() == 0 {
        assert(front + back =~= front);
        assert(escaped(front) + escaped(back) =~= escaped(front));
    } else {
        law_characters_are_escaped_alone(front, ch, back.drop_last());
        assert((front + back).drop_last() =~= front + back.drop_last());
        assert(escaped(front + back) =~= escaped(front) + escaped(back));
    }
}

proof fn lemma_escaped_one(ch: char)
    ensures
        escaped(seq![ch]) == escaped_char(ch),
{
    reveal_with_fuel(escaped, 2);
    assert(seq![ch].drop_last() =~= Seq::<char>::empty());
    assert(escaped(seq![ch]) =~= escaped_char(ch));
}

/// A message hides something exactly while it holds a spoiler within its text that
/// is not revealed, and quotes something exactly where it holds such a quote.
pub proof fn law_flags_tell_of_spans(style: Style, count: int)
    ensures
        hides_something(style, count) <==> exists|i: int|
            0 <= i < style.spans.len() && (#[trigger] style.spans[i]).kind == SpanKind::Spoiler
                && style.spans[i].start < style.spans[i].end && style.spans[i].end <= count
                && !style.revealed.contains((style.spans[i].start, style.spans[i].end)),
        quotes_something(style.spans, count) <==> exists|i: int|
            0 <= i < style.spans.len() && (#[trigger] style.spans[i]).kind == SpanKind::Blockquote
                && style.spans[i].start < style.spans[i].end && style.spans[i].end <= count,
{
}

// ------------------------------------------------------------- one formatted part

proof fn lemma_written_sum(style: Style, left: Seq<Piece>, right: Seq<Piece>)
    ensures
        written(style, left + right) == written(style, left) + written(style, right),
    decreases right.len(),
{
    if right.len() == 0 {
        assert(left + right =~= left);
        assert(written(style, left) + written(style, right) =~= written(style, left));
    } else {
        lemma_written_sum(style, left, right.drop_last());
        assert((left + right).drop_last() =~= left + right.drop_last());
        assert((left + right).last() == right.last());
        assert(written(style, left + right) =~= written(style, left) + written(style, right));
    }
}

proof fn lemma_written_char(style: Style, earlier: Seq<Piece>, steps: Seq<Piece>, ch: char)
    ensures
        written(style, earlier + steps.push(Piece::Char(ch))) == written(style, earlier) + written(
            style,
            steps,
        ) + escaped_char(ch),
{
    let last = steps.push(Piece::Char(ch));
    lemma_written_sum(style, earlier, last);
    assert(last.drop_last() =~= steps);
    assert(last.last() == Piece::Char(ch));
    assert(written(style, last) == written(style, steps) + escaped_char(ch));
    assert(written(style, earlier) + (written(style, steps) + escaped_char(ch)) =~= written(
        style,
        earlier,
    ) + written(style, steps) + escaped_char(ch));
}

proof fn lemma_escaped_push(text: Seq<char>, count: int)
    requires
        0 < count <= text.len(),
    ensures
        escaped(text.take(count)) == escaped(text.take(count - 1)) + escaped_char(text[count - 1]),
{
    assert(text.take(count).drop_last() =~= text.take(count - 1));
    assert(text.take(count).last() == text[count - 1]);
}

proof fn lemma_one_cover(spans: Seq<Span>, layer: Layer, offset: int)
    ensures
        covering(spans, seq![layer], offset) == (if covers(spans, layer, offset) {
            seq![layer]
        } else {
            Seq::empty()
        }),
{
    reveal(Seq::filter);
    reveal_with_fuel(Seq::filter, 2);
    assert(seq![layer].drop_last() =~= Seq::<Layer>::empty());
    assert(seq![layer].last() == layer);
    if covers(spans, layer, offset) {
        assert(covering(spans, seq![layer], offset) =~= seq![layer]);
    } else {
        assert(covering(spans, seq![layer], offset) =~= Seq::<Layer>::empty());
    }
}

proof fn lemma_step(style: Style, from: Seq<Layer>, to: Seq<Layer>, layer: Layer)
    requires
        from == seq![layer] || from == Seq::<Layer>::empty(),
        to == seq![layer] || to == Seq::<Layer>::empty(),
    ensures
        written(style, transition(from, to)) == (if from.len() == 0 && to.len() == 1 {
            opening(style, layer)
        } else if from.len() == 1 && to.len() == 0 {
            closing(style, layer)
        } else {
            Seq::empty()
        }),
{
    reveal_with_fuel(common_from, 3);
    reveal_with_fuel(written, 2);
    let kept = common_from(from, to, 0);
    let none = Seq::<Piece>::empty();
    if from.len() == 0 && to.len() == 1 {
        assert(closings(from, kept) =~= none);
        assert(openings(to, kept) =~= seq![Piece::Open(layer)]);
        assert(transition(from, to) =~= seq![Piece::Open(layer)]);
        assert(seq![Piece::Open(layer)].drop_last() =~= none);
        assert(written(style, seq![Piece::Open(layer)]) =~= opening(style, layer));
    } else if from.len() == 1 && to.len() == 0 {
        assert(openings(to, kept) =~= none);
        assert(closings(from, kept) =~= seq![Piece::Close(layer)]);
        assert(transition(from, to) =~= seq![Piece::Close(layer)]);
        assert(seq![Piece::Close(layer)].drop_last() =~= none);
        assert(written(style, seq![Piece::Close(layer)]) =~= closing(style, layer));
    } else {
        assert(closings(from, kept) =~= none);
        assert(openings(to, kept) =~= none);
        assert(transition(from, to) =~= none);
    }
}

proof fn lemma_pieces_at(
    style: Style,
    layer: Layer,
    layers: Seq<Layer>,
    earlier: Seq<Piece>,
    offset: int,
    ch: char,
)
    requires
        layers == seq![layer],
        offset >= 0,
        0 <= style.spans[layer.ordinal as int].start,
    ensures
        written(style, earlier + pieces_at(style.spans, layers, offset, ch)) == written(
            style,
            earlier,
        ) + (if covers(style.spans, layer, offset) && !covers(style.spans, layer, offset - 1) {
            opening(style, layer)
        } else if !covers(style.spans, layer, offset) && covers(style.spans, layer, offset - 1) {
            closing(style, layer)
        } else {
            Seq::empty()
        }) + escaped_char(ch),
{
    let from = open_after(style.spans, layers, offset);
    let to = covering(style.spans, layers, offset);
    lemma_one_cover(style.spans, layer, offset);
    lemma_one_cover(style.spans, layer, offset - 1);
    lemma_step(style, from, to, layer);
    let steps = transition(from, to);
    lemma_written_char(style, earlier, steps, ch);
}

proof fn lemma_one_part(
    style: Style,
    layer: Layer,
    layers: Seq<Layer>,
    front: Seq<char>,
    part: Seq<char>,
    back: Seq<char>,
    count: int,
)
    requires
        part.len() > 0,
        layers == seq![layer],
        style.spans[layer.ordinal as int].start == front.len(),
        style.spans[layer.ordinal as int].end == front.len() + part.len(),
        0 <= count <= (front + part + back).len(),
    ensures
        written(style, pieces(style.spans, layers, front + part + back, count)) == (if count
            <= front.len() {
            escaped(front.take(count))
        } else if count <= front.len() + part.len() {
            escaped(front) + opening(style, layer) + escaped(part.take(count - front.len()))
        } else {
            escaped(front) + opening(style, layer) + escaped(part) + closing(style, layer)
                + escaped(back.take(count - front.len() - part.len()))
        }),
    decreases count,
{
    let text = front + part + back;
    let (start, end) = (front.len() as int, (front.len() + part.len()) as int);
    if count > 0 {
        lemma_one_part(style, layer, layers, front, part, back, count - 1);
        let offset = count - 1;
        let ch = text[offset];
        let earlier = pieces(style.spans, layers, text, offset);
        lemma_pieces_at(style, layer, layers, earlier, offset, ch);
        let so_far = written(style, earlier);
        let none = Seq::<char>::empty();
        let all = written(style, pieces(style.spans, layers, text, count));
        assert(pieces(style.spans, layers, text, count) == earlier + pieces_at(
            style.spans,
            layers,
            offset,
            ch,
        ));
        assert(escaped(none) =~= none);
        assert(so_far + none =~= so_far);
        if count <= start {
            lemma_escaped_push(front, count);
            assert(ch == front[offset]);
            assert(all == escaped(front.take(count)));
        } else if count <= end {
            lemma_escaped_push(part, count - start);
            assert(ch == part[offset - start]);
            assert(front.take(start) =~= front);
            let lead = escaped(front) + opening(style, layer);
            let inner = escaped(part.take(offset - start));
            if offset == start {
                assert(part.take(0) =~= none);
                assert(lead + none =~= lead);
            }
            assert((lead + inner) + escaped_char(ch) =~= lead + (inner + escaped_char(ch)));
            assert(all == lead + escaped(part.take(count - start)));
        } else {
            lemma_escaped_push(back, count - end);
            assert(ch == back[offset - end]);
            assert(part.take(end - start) =~= part);
            let lead = escaped(front) + opening(style, layer) + escaped(part) + closing(
                style,
                layer,
            );
            let inner = escaped(back.take(offset - end));
            if offset == end {
                assert(back.take(0) =~= none);
                assert(lead + none =~= lead);
            }
            assert((lead + inner) + escaped_char(ch) =~= lead + (inner + escaped_char(ch)));
            assert(all == lead + escaped(back.take(count - end)));
        }
    } else {
        assert(front.take(0) =~= Seq::<char>::empty());
    }
}

/// A message with one formatted part is that part between its tags, with the escaped
/// text before and after it.
pub proof fn law_one_part_is_tagged(
    style: Style,
    front: Seq<char>,
    part: Seq<char>,
    back: Seq<char>,
)
    requires
        part.len() > 0,
        style.spans.len() == 1,
        style.spans[0].start == front.len(),
        style.spans[0].end == front.len() + part.len(),
    ensures
        ({
            let kind = style.spans[0].kind;
            let layer = Layer {
                ordinal: 0,
                anchor: kind is Mention || (kind matches SpanKind::Link(target) && allowed_link(
                    target@,
                )),
            };
            markup_of(style, front + part + back) == escaped(front) + opening(style, layer)
                + escaped(part) + closing(style, layer) + escaped(back)
        }),
{
    let text = front + part + back;
    let count = text.len() as int;
    let layers = layers_of(style.spans, count);
    law_layers_are_the_usable_spans(style.spans, count);
    assert(has_layer(layers, 0));
    let q = choose|q: int| 0 <= q < layers.len() && (#[trigger] layers[q]).ordinal == 0;
    assert(q == 0 && layers.len() == 1) by {
        assert(has_layer(layers, layers[0].ordinal));
        if layers.len() > 1 {
            assert(has_layer(layers, layers[1].ordinal));
            assert(layers[0].ordinal != layers[1].ordinal);
        }
    }
    let layer = layers[0];
    law_first_link_wins(style.spans, count, 0);
    assert(layers =~= seq![layer]);
    lemma_one_part(style, layer, layers, front, part, back, count);
    let body = pieces(style.spans, layers, text, count);
    let rest = open_after(style.spans, layers, count);
    lemma_one_cover(style.spans, layer, count - 1);
    lemma_written_sum(style, body, closings(rest, 0));
    reveal_with_fuel(written, 2);
    if back.len() == 0 {
        assert(closings(rest, 0) =~= seq![Piece::Close(layer)]);
        assert(seq![Piece::Close(layer)].drop_last() =~= Seq::<Piece>::empty());
        assert(written(style, closings(rest, 0)) =~= closing(style, layer));
        assert(part.take(part.len() as int) =~= part);
        assert(escaped(back) =~= Seq::<char>::empty());
    } else {
        assert(closings(rest, 0) =~= Seq::<Piece>::empty());
        assert(back.take(back.len() as int) =~= back);
    }
    assert(markup_of(style, text) =~= escaped(front) + opening(style, layer) + escaped(part)
        + closing(style, layer) + escaped(back));
}

/// What is rendered is the markup of the message, with a word on what it hides and
/// quotes.
pub proof fn law_rendering_is_complete(
    rendered: RenderedMarkup,
    spans: Seq<Span>,
    revealed: Set<(usize, usize)>,
    code_background: Option<&str>,
    text: Seq<char>,
)
    requires
        renders(rendered, style_of(spans, revealed, code_background), text),
    ensures
        rendered.markup@ == markup_of(
            Style {
                spans,
                revealed,
                code_background: match code_background {
                    Some(background) => Some(background@),
                    None => None,
                },
            },
            text,
        ),
        rendered.has_spoiler <==> exists|i: int|
            0 <= i < spans.len() && (#[trigger] spans[i]).kind == SpanKind::Spoiler
                && spans[i].start < spans[i].end && spans[i].end <= text.len()
                && !revealed.contains((spans[i].start, spans[i].end)),
        rendered.has_blockquote <==> exists|i: int|
            0 <= i < spans.len() && (#[trigger] spans[i]).kind == SpanKind::Blockquote
                && spans[i].start < spans[i].end && spans[i].end <= text.len(),
{
    law_flags_tell_of_spans(style_of(spans, revealed, code_background), text.len() as int);
}

/// Around a character the layers are open in document order, the outermost first.
pub proof fn law_layers_stay_in_order(spans: Seq<Span>, layers: Seq<Layer>, offset: int, i: int, j: int) -> (
    places: (int, int))
    requires
        0 <= i < j < layers.len(),
        holds(spans[layers[i].ordinal as int], offset),
        holds(spans[layers[j].ordinal as int], offset),
    ensures
        0 <= places.0 < places.1 < covering(spans, layers, offset).len(),
        covering(spans, layers, offset)[places.0] == layers[i],
        covering(spans, layers, offset)[places.1] == layers[j],
{
    lemma_kept_in_order(layers, |one: Layer| covers(spans, one, offset), i, j)
}

} // verus!
