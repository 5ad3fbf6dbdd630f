//! What holds of all rendered messages: the tags are well nested, the text is kept,
//! and what a span contributes depends on little.

use vstd::prelude::*;

use crate::markup::{
    anchorable, before, closing, closings, common_from, covering, covers, document, document_order,
    escaped, escaped_char, hides_something, is_markup_char, law_escaped_text_holds_no_markup,
    layered, layers_of, lemma_common, lemma_document_order, lemma_layered, lemma_placed,
    lemma_written_at, markup_of, open_after, opening, openings, overlap,
    piece_text, pieces, pieces_at, placed, quotes_something, taken, transition, usable, written,
    Layer, Piece, Style,
};
use crate::text::{decimal, digits};
use crate::tg::{Span, SpanKind};

verus! {

/// The characters among some pieces.
pub open spec fn letters(pieces: Seq<Piece>) -> Seq<char>
    decreases pieces.len(),
{
    if pieces.len() == 0 {
        Seq::empty()
    } else {
        match pieces.last() {
            Piece::Char(ch) => letters(pieces.drop_last()).push(ch),
            _ => letters(pieces.drop_last()),
        }
    }
}

/// The layers that are open behind some pieces, or nothing where a layer ends
/// that is not the innermost open one.
pub open spec fn open_behind(pieces: Seq<Piece>) -> Option<Seq<Layer>>
    decreases pieces.len(),
{
    if pieces.len() == 0 {
        Some(Seq::empty())
    } else {
        match open_behind(pieces.drop_last()) {
            None => None,
            Some(open) => match pieces.last() {
                Piece::Char(_) => Some(open),
                Piece::Open(layer) => Some(open.push(layer)),
                Piece::Close(layer) => if open.len() > 0 && open.last() == layer {
                    Some(open.drop_last())
                } else {
                    None
                },
            },
        }
    }
}

proof fn lemma_tags_hold_no_letters(pieces: Seq<Piece>, tags: Seq<Piece>)
    requires
        forall|i: int| 0 <= i < tags.len() ==> !(#[trigger] tags[i] is Char),
    ensures
        letters(pieces + tags) == letters(pieces),
    decreases tags.len(),
{
    if tags.len() == 0 {
        assert(pieces + tags =~= pieces);
    } else {
        assert((pieces + tags).drop_last() =~= pieces + tags.drop_last());
        assert((pieces + tags).last() == tags[tags.len() - 1]);
        lemma_tags_hold_no_letters(pieces, tags.drop_last());
    }
}

proof fn lemma_letters_at(
    spans: Seq<Span>,
    layers: Seq<Layer>,
    earlier: Seq<Piece>,
    offset: int,
    ch: char,
)
    ensures
        letters(earlier + pieces_at(spans, layers, offset, ch)) == letters(earlier).push(ch),
{
    let step = pieces_at(spans, layers, offset, ch);
    let tags = transition(open_after(spans, layers, offset), covering(spans, layers, offset));
    lemma_tags_hold_no_letters(earlier, tags);
    assert((earlier + step).drop_last() =~= earlier + tags);
    assert((earlier + step).last() == Piece::Char(ch));
}

proof fn lemma_letters(spans: Seq<Span>, layers: Seq<Layer>, text: Seq<char>, count: int)
    requires
        0 <= count <= text.len(),
    ensures
        letters(pieces(spans, layers, text, count)) == text.take(count),
    decreases count,
{
    if count > 0 {
        lemma_letters(spans, layers, text, count - 1);
        lemma_letters_at(
            spans,
            layers,
            pieces(spans, layers, text, count - 1),
            count - 1,
            text[count - 1],
        );
        assert(text.take(count - 1).push(text[count - 1]) =~= text.take(count));
    } else {
        assert(text.take(0) =~= Seq::<char>::empty());
    }
}

/// Between its tags the markup holds the message's characters, all of them, in
/// order and nothing else.
pub proof fn law_text_is_kept(spans: Seq<Span>, text: Seq<char>)
    ensures
        letters(document(spans, text)) == text,
{
    let layers = layers_of(spans, text.len() as int);
    lemma_letters(spans, layers, text, text.len() as int);
    lemma_tags_hold_no_letters(
        pieces(spans, layers, text, text.len() as int),
        closings(open_after(spans, layers, text.len() as int), 0),
    );
    assert(text.take(text.len() as int) =~= text);
}

/// Whether no span has two layers.
pub open spec fn distinct(layers: Seq<Layer>) -> bool {
    forall|i: int, j: int|
        0 <= i < j < layers.len() ==> (#[trigger] layers[i]).ordinal != (
        #[trigger] layers[j]).ordinal
}

/// Whether a span has a layer.
pub open spec fn has_layer(layers: Seq<Layer>, ordinal: usize) -> bool {
    exists|i: int| 0 <= i < layers.len() && (#[trigger] layers[i]).ordinal == ordinal
}

proof fn lemma_placed_distinct(spans: Seq<Span>, order: Seq<usize>, i: usize)
    requires
        order.no_duplicates(),
        !order.contains(i),
    ensures
        placed(spans, order, i).no_duplicates(),
    decreases order.len(),
{
    if order.len() > 0 && !before(spans, order.last(), i) {
        let rest = order.drop_last();
        assert forall|x: usize| rest.contains(x) implies order.contains(x) by {
            assert(order[rest.index_of(x)] == x);
        }
        lemma_placed_distinct(spans, rest, i);
        lemma_placed(spans, rest, i);
        let inner = placed(spans, rest, i);
        assert(!rest.contains(order.last())) by {
            if rest.contains(order.last()) {
                assert(order[rest.index_of(order.last())] == order[order.len() - 1]);
            }
        }
        assert(order.contains(order[order.len() - 1]));
        assert(!inner.contains(order.last()));
        assert forall|a: int, b: int| 0 <= a < b < inner.len() + 1 implies inner.push(order.last())[a]
            != inner.push(order.last())[b] by {
            assert(inner.contains(inner[a]));
        }
    } else if order.len() > 0 {
        assert forall|a: int, b: int| 0 <= a < b < order.len() + 1 implies order.push(i)[a]
            != order.push(i)[b] by {
            assert(order.contains(order[a]));
        }
    }
}

proof fn lemma_order_distinct(spans: Seq<Span>, count: int, given: int)
    requires
        0 <= given <= spans.len() <= usize::MAX,
    ensures
        document_order(spans, count, given).no_duplicates(),
    decreases given,
{
    if given > 0 {
        lemma_order_distinct(spans, count, given - 1);
        lemma_document_order(spans, count, given - 1);
        if usable(spans[given - 1], count) {
            lemma_placed_distinct(
                spans,
                document_order(spans, count, given - 1),
                (given - 1) as usize,
            );
        }
    }
}

/// Each usable span has exactly one layer, and no other span has one.
pub proof fn law_layers_are_the_usable_spans(spans: Seq<Span>, count: int)
    requires
        spans.len() <= usize::MAX,
    ensures
        distinct(layers_of(spans, count)),
        forall|ordinal: usize|
            #[trigger] has_layer(layers_of(spans, count), ordinal) <==> ordinal < spans.len()
                && usable(spans[ordinal as int], count),
{
    let order = document_order(spans, count, spans.len() as int);
    lemma_order_distinct(spans, count, spans.len() as int);
    lemma_document_order(spans, count, spans.len() as int);
    lemma_layered(spans, order, order.len() as int);
    let layers = layers_of(spans, count);
    assert forall|ordinal: usize|
        #[trigger] has_layer(layers, ordinal) <==> ordinal < spans.len() && usable(
            spans[ordinal as int],
            count,
        ) by {
        if has_layer(layers, ordinal) {
            let i = choose|i: int| 0 <= i < layers.len() && (#[trigger] layers[i]).ordinal == ordinal;
            assert(order.contains(order[i]));
        }
        if ordinal < spans.len() && usable(spans[ordinal as int], count) {
            assert(order.contains(ordinal));
            assert(layers[order.index_of(ordinal)].ordinal == ordinal);
        }
    }
}

/// What a filtered list of layers holds.
proof fn lemma_filtered(layers: Seq<Layer>, keep: spec_fn(Layer) -> bool)
    ensures
        forall|i: int|
            0 <= i < layers.filter(keep).len() ==> keep(#[trigger] layers.filter(keep)[i])
                && layers.contains(layers.filter(keep)[i]),
        distinct(layers) ==> distinct(layers.filter(keep)),
    decreases layers.len(),
{
    reveal(Seq::filter);
    if layers.len() > 0 {
        let rest = layers.drop_last();
        lemma_filtered(rest, keep);
        let kept = layers.filter(keep);
        assert forall|i: int| 0 <= i < kept.len() implies keep(#[trigger] kept[i])
            && layers.contains(kept[i]) by {
            if i < rest.filter(keep).len() {
                assert(kept[i] == rest.filter(keep)[i]);
                assert(layers[rest.index_of(kept[i])] == kept[i]);
            } else {
                assert(layers[layers.len() - 1] == kept[i]);
            }
        }
        if distinct(layers) {
            assert(distinct(rest)) by {
                assert forall|i: int, j: int| 0 <= i < j < rest.len() implies (
                #[trigger] rest[i]).ordinal != (#[trigger] rest[j]).ordinal by {
                    assert(rest[i] == layers[i] && rest[j] == layers[j]);
                }
            }
            assert forall|i: int, j: int| 0 <= i < j < kept.len() implies (#[trigger] kept[i]).ordinal
                != (#[trigger] kept[j]).ordinal by {
                let inner = rest.filter(keep);
                assert(kept[i] == inner[i]);
                if j < inner.len() {
                    assert(kept[j] == inner[j]);
                } else {
                    assert(kept[j] == layers[layers.len() - 1]);
                    let at = rest.index_of(inner[i]);
                    assert(layers[at] == inner[i]);
                }
            }
        }
    }
}

proof fn lemma_anchors(spans: Seq<Span>, order: Seq<usize>, given: int)
    requires
        0 <= given <= order.len(),
    ensures
        forall|i: int, j: int|
            0 <= i < j < given && (#[trigger] layered(spans, order, given)[i]).anchor && (
            #[trigger] layered(spans, order, given)[j]).anchor ==> !overlap(
                spans[order[i] as int],
                spans[order[j] as int],
            ),
        forall|i: int|
            0 <= i < given && (#[trigger] layered(spans, order, given)[i]).anchor ==> anchorable(
                spans[order[i] as int].kind,
            ),
    decreases given,
{
    if given > 0 {
        lemma_anchors(spans, order, given - 1);
        lemma_layered(spans, order, given - 1);
        let earlier = layered(spans, order, given - 1);
        let layers = layered(spans, order, given);
        assert forall|i: int, j: int|
            0 <= i < j < given && (#[trigger] layers[i]).anchor && (
            #[trigger] layers[j]).anchor implies !overlap(
            spans[order[i] as int],
            spans[order[j] as int],
        ) by {
            assert(layers[i] == earlier[i]);
            if j < given - 1 {
                assert(layers[j] == earlier[j]);
            } else {
                assert(earlier[i].anchor);
            }
        }
    }
}

/// No character of a message lies in two links at once, and only mentions and
/// links of an allowed scheme are links at all.
pub proof fn law_links_never_nest(spans: Seq<Span>, count: int, offset: int)
    requires
        spans.len() <= usize::MAX,
    ensures
        forall|i: int, j: int|
            0 <= i < j < covering(spans, layers_of(spans, count), offset).len() ==> !((
            #[trigger] covering(spans, layers_of(spans, count), offset)[i]).anchor && (
            #[trigger] covering(spans, layers_of(spans, count), offset)[j]).anchor),
        forall|i: int|
            0 <= i < layers_of(spans, count).len() && (#[trigger] layers_of(spans, count)[i]).anchor
                ==> anchorable(spans[layers_of(spans, count)[i].ordinal as int].kind),
{
    let order = document_order(spans, count, spans.len() as int);
    let layers = layers_of(spans, count);
    lemma_layered(spans, order, order.len() as int);
    lemma_anchors(spans, order, order.len() as int);
    law_layers_are_the_usable_spans(spans, count);
    let over = |layer: Layer| covers(spans, layer, offset);
    lemma_filtered(layers, over);
    let found = covering(spans, layers, offset);
    assert forall|i: int, j: int| 0 <= i < j < found.len() implies !((#[trigger] found[i]).anchor && (
    #[trigger] found[j]).anchor) by {
        let a = layers.index_of(found[i]);
        let b = layers.index_of(found[j]);
        assert(layers.contains(found[i]) && layers.contains(found[j]));
        assert(layers[a] == found[i] && layers[b] == found[j]);
        assert(a != b);
        assert(over(found[i]) && over(found[j]));
        if found[i].anchor && found[j].anchor {
            if a < b {
                assert(!overlap(spans[order[a] as int], spans[order[b] as int]));
            } else {
                assert(!overlap(spans[order[b] as int], spans[order[a] as int]));
            }
        }
    }
}

proof fn lemma_closings(pieces: Seq<Piece>, open: Seq<Layer>, kept: int, done: int)
    requires
        open_behind(pieces) == Some(open),
        0 <= kept <= open.len(),
        0 <= done <= open.len() - kept,
    ensures
        open_behind(pieces + closings(open, kept).take(done)) == Some(open.take(open.len() - done)),
    decreases done,
{
    let all = closings(open, kept);
    if done == 0 {
        assert(pieces + all.take(0) =~= pieces);
        assert(open.take(open.len() as int) =~= open);
    } else {
        lemma_closings(pieces, open, kept, done - 1);
        let now = pieces + all.take(done);
        assert(now.drop_last() =~= pieces + all.take(done - 1));
        assert(now.last() == all[done - 1]);
        let left = open.take(open.len() - (done - 1));
        assert(left.last() == open[open.len() - done]);
        assert(left.drop_last() =~= open.take(open.len() - done));
    }
}

proof fn lemma_openings(pieces: Seq<Piece>, to: Seq<Layer>, kept: int, done: int)
    requires
        open_behind(pieces) == Some(to.take(kept)),
        0 <= kept <= to.len(),
        0 <= done <= to.len() - kept,
    ensures
        open_behind(pieces + openings(to, kept).take(done)) == Some(to.take(kept + done)),
    decreases done,
{
    let all = openings(to, kept);
    if done == 0 {
        assert(pieces + all.take(0) =~= pieces);
    } else {
        lemma_openings(pieces, to, kept, done - 1);
        let now = pieces + all.take(done);
        assert(now.drop_last() =~= pieces + all.take(done - 1));
        assert(now.last() == all[done - 1]);
        assert(to.take(kept + done - 1).push(to[kept + done - 1]) =~= to.take(kept + done));
    }
}

proof fn lemma_transition(pieces: Seq<Piece>, from: Seq<Layer>, to: Seq<Layer>)
    requires
        open_behind(pieces) == Some(from),
        forall|i: int, j: int|
            0 <= i < from.len() && 0 <= j < to.len() && (#[trigger] from[i]).ordinal == (
            #[trigger] to[j]).ordinal ==> from[i] == to[j],
    ensures
        open_behind(pieces + transition(from, to)) == Some(to),
{
    let kept = common_from(from, to, 0);
    lemma_common(from, to, 0);
    lemma_closings(pieces, from, kept, from.len() - kept);
    let ends = closings(from, kept);
    assert(ends.take(from.len() - kept) =~= ends);
    assert(from.take(kept) =~= to.take(kept)) by {
        assert forall|i: int| 0 <= i < kept implies from[i] == to[i] by {
            assert(from[i].ordinal == to[i].ordinal);
        }
    }
    assert(from.len() - (from.len() - kept) == kept);
    lemma_openings(pieces + ends, to, kept, to.len() - kept);
    let begins = openings(to, kept);
    assert(begins.take(to.len() - kept) =~= begins);
    assert(to.take(to.len() as int) =~= to);
    assert(pieces + ends + begins =~= pieces + transition(from, to));
}

proof fn lemma_open_at(
    spans: Seq<Span>,
    layers: Seq<Layer>,
    earlier: Seq<Piece>,
    offset: int,
    ch: char,
)
    requires
        distinct(layers),
        open_behind(earlier) == Some(open_after(spans, layers, offset)),
    ensures
        open_behind(
            earlier + transition(
                open_after(spans, layers, offset),
                covering(spans, layers, offset),
            ),
        ) == Some(covering(spans, layers, offset)),
        open_behind(earlier + pieces_at(spans, layers, offset, ch)) == Some(
            covering(spans, layers, offset),
        ),
{
    let from = open_after(spans, layers, offset);
    let to = covering(spans, layers, offset);
    lemma_filtered(layers, |layer: Layer| covers(spans, layer, offset));
    lemma_filtered(layers, |layer: Layer| covers(spans, layer, offset - 1));
    assert forall|i: int, j: int|
        0 <= i < from.len() && 0 <= j < to.len() && (#[trigger] from[i]).ordinal == (
        #[trigger] to[j]).ordinal implies from[i] == to[j] by {
        assert(layers.contains(from[i]) && layers.contains(to[j]));
        let a = layers.index_of(from[i]);
        let b = layers.index_of(to[j]);
        assert(layers[a] == from[i] && layers[b] == to[j]);
        if a < b {
            assert(layers[a].ordinal != layers[b].ordinal);
        } else if b < a {
            assert(layers[b].ordinal != layers[a].ordinal);
        }
    }
    lemma_transition(earlier, from, to);
    let step = pieces_at(spans, layers, offset, ch);
    assert((earlier + step).drop_last() =~= earlier + transition(from, to));
    assert((earlier + step).last() == Piece::Char(ch));
}

proof fn lemma_open_behind(spans: Seq<Span>, layers: Seq<Layer>, text: Seq<char>, count: int)
    requires
        distinct(layers),
        0 <= count,
    ensures
        open_behind(pieces(spans, layers, text, count)) == Some(open_after(spans, layers, count)),
    decreases count,
{
    if count > 0 {
        lemma_open_behind(spans, layers, text, count - 1);
        lemma_open_at(
            spans,
            layers,
            pieces(spans, layers, text, count - 1),
            count - 1,
            text[count - 1],
        );
    }
}

/// The tags are well nested: each end closes the innermost open layer, at the end
/// none is left open, and the layers that are open around a character are exactly
/// those that cover it, in document order.
pub proof fn law_tags_are_well_nested(spans: Seq<Span>, text: Seq<char>)
    requires
        spans.len() <= usize::MAX,
    ensures
        open_behind(document(spans, text)) == Some(Seq::<Layer>::empty()),
        forall|offset: int|
            0 <= offset < text.len() ==> open_behind(
                #[trigger] pieces(spans, layers_of(spans, text.len() as int), text, offset + 1),
            ) == Some(covering(spans, layers_of(spans, text.len() as int), offset)),
{
    let layers = layers_of(spans, text.len() as int);
    law_layers_are_the_usable_spans(spans, text.len() as int);
    assert forall|offset: int| 0 <= offset < text.len() implies open_behind(
        #[trigger] pieces(spans, layers, text, offset + 1),
    ) == Some(covering(spans, layers, offset)) by {
        lemma_open_behind(spans, layers, text, offset + 1);
    }
    let body = pieces(spans, layers, text, text.len() as int);
    let open = open_after(spans, layers, text.len() as int);
    lemma_open_behind(spans, layers, text, text.len() as int);
    lemma_closings(body, open, 0, open.len() as int);
    assert(closings(open, 0).take(open.len() as int) =~= closings(open, 0));
    assert(open.take(0) =~= Seq::<Layer>::empty());
}

// ------------------------------------------------- what the spans contribute

/// Whether a span stands before another one in a document: it starts first, or with
/// the other one and is not shorter.
pub open spec fn ranks(left: Span, right: Span) -> bool {
    left.start < right.start || (left.start == right.start && left.end >= right.end)
}

/// A list of spans with one more put where it belongs: behind the last one that
/// stands before it.
pub open spec fn put(list: Seq<Span>, span: Span) -> Seq<Span>
    decreases list.len(),
{
    if list.len() == 0 {
        seq![span]
    } else if ranks(list.last(), span) {
        list.push(span)
    } else {
        put(list.drop_last(), span).push(list.last())
    }
}

/// Spans as they stand in a document.
pub open spec fn sorted_spans(spans: Seq<Span>) -> Seq<Span>
    decreases spans.len(),
{
    if spans.len() == 0 {
        Seq::empty()
    } else {
        put(sorted_spans(spans.drop_last()), spans.last())
    }
}

/// The spans that cover a character of a text, and none behind its end.
pub open spec fn usable_spans(spans: Seq<Span>, count: int) -> Seq<Span> {
    spans.filter(|span: Span| usable(span, count))
}

/// The spans that some numbers stand for.
spec fn spans_at(spans: Seq<Span>, order: Seq<usize>) -> Seq<Span> {
    order.map_values(|i: usize| spans[i as int])
}

proof fn lemma_put(spans: Seq<Span>, order: Seq<usize>, i: usize)
    requires
        forall|j: int| 0 <= j < order.len() ==> #[trigger] order[j] < i,
    ensures
        spans_at(spans, placed(spans, order, i)) == put(spans_at(spans, order), spans[i as int]),
    decreases order.len(),
{
    let list = spans_at(spans, order);
    if order.len() == 0 {
        assert(spans_at(spans, seq![i]) =~= seq![spans[i as int]]);
    } else {
        let rest = order.drop_last();
        assert(order[order.len() - 1] < i);
        assert(list.last() == spans[order.last() as int]);
        assert(before(spans, order.last(), i) == ranks(list.last(), spans[i as int]));
        if before(spans, order.last(), i) {
            assert(spans_at(spans, order.push(i)) =~= list.push(spans[i as int]));
        } else {
            assert forall|j: int| 0 <= j < rest.len() implies #[trigger] rest[j] < i by {
                assert(rest[j] == order[j]);
            }
            lemma_put(spans, rest, i);
            assert(spans_at(spans, rest) =~= list.drop_last());
            let inner = placed(spans, rest, i);
            assert(spans_at(spans, inner.push(order.last())) =~= spans_at(spans, inner).push(
                list.last(),
            ));
        }
    }
}

/// Document order is the order of the usable spans.
proof fn lemma_document_spans(spans: Seq<Span>, count: int, given: int)
    requires
        0 <= given <= spans.len() <= usize::MAX,
    ensures
        spans_at(spans, document_order(spans, count, given)) == sorted_spans(
            usable_spans(spans.take(given), count),
        ),
    decreases given,
{
    reveal(Seq::filter);
    if given == 0 {
        assert(spans.take(0) =~= Seq::<Span>::empty());
        assert(spans_at(spans, Seq::empty()) =~= Seq::<Span>::empty());
    } else {
        lemma_document_spans(spans, count, given - 1);
        lemma_document_order(spans, count, given - 1);
        let earlier = document_order(spans, count, given - 1);
        let now = spans.take(given);
        assert(now.drop_last() =~= spans.take(given - 1));
        assert(now.last() == spans[given - 1]);
        if usable(spans[given - 1], count) {
            assert forall|j: int| 0 <= j < earlier.len() implies #[trigger] earlier[j] < (given
                - 1) as usize by {
                assert(earlier.contains(earlier[j]));
            }
            lemma_put(spans, earlier, (given - 1) as usize);
            let kept = usable_spans(now.drop_last(), count);
            assert(usable_spans(now, count) =~= kept.push(now.last()));
            assert(kept.push(now.last()).drop_last() =~= kept);
        }
    }
}

/// A layer that stands for another number.
spec fn renamed(layer: Layer, name: spec_fn(usize) -> usize) -> Layer {
    Layer { ordinal: name(layer.ordinal), anchor: layer.anchor }
}

spec fn all_renamed(layers: Seq<Layer>, name: spec_fn(usize) -> usize) -> Seq<Layer> {
    layers.map_values(|layer: Layer| renamed(layer, name))
}

/// A piece whose layer stands for another number.
spec fn piece_renamed(piece: Piece, name: spec_fn(usize) -> usize) -> Piece {
    match piece {
        Piece::Open(layer) => Piece::Open(renamed(layer, name)),
        Piece::Close(layer) => Piece::Close(renamed(layer, name)),
        Piece::Char(ch) => Piece::Char(ch),
    }
}

spec fn pieces_renamed(pieces: Seq<Piece>, name: spec_fn(usize) -> usize) -> Seq<Piece> {
    pieces.map_values(|piece: Piece| piece_renamed(piece, name))
}

/// Whether the layers of a list stand for the same spans under their new numbers,
/// and stay apart.
spec fn carries_over(
    left: Seq<Span>,
    right: Seq<Span>,
    layers: Seq<Layer>,
    name: spec_fn(usize) -> usize,
) -> bool {
    &&& forall|i: int|
        0 <= i < layers.len() ==> left[(#[trigger] layers[i]).ordinal as int] == right[name(
            layers[i].ordinal,
        ) as int]
    &&& forall|i: int, j: int|
        0 <= i < layers.len() && 0 <= j < layers.len() && name((#[trigger] layers[i]).ordinal) == name(
            (#[trigger] layers[j]).ordinal,
        ) ==> layers[i].ordinal == layers[j].ordinal
}

/// Whether each layer that begins or ends in some pieces is one of a list.
spec fn drawn_from(pieces: Seq<Piece>, layers: Seq<Layer>) -> bool {
    forall|i: int|
        0 <= i < pieces.len() ==> match #[trigger] pieces[i] {
            Piece::Open(layer) => layers.contains(layer),
            Piece::Close(layer) => layers.contains(layer),
            Piece::Char(_) => true,
        }
}

proof fn lemma_drawn_from_both(a: Seq<Piece>, b: Seq<Piece>, layers: Seq<Layer>)
    requires
        drawn_from(a, layers),
        drawn_from(b, layers),
    ensures
        drawn_from(a + b, layers),
{
    assert forall|i: int| 0 <= i < (a + b).len() implies match #[trigger] (a + b)[i] {
        Piece::Open(layer) => layers.contains(layer),
        Piece::Close(layer) => layers.contains(layer),
        Piece::Char(_) => true,
    } by {
        if i < a.len() {
            assert((a + b)[i] == a[i]);
        } else {
            assert((a + b)[i] == b[i - a.len()]);
        }
    }
}

proof fn lemma_covering_renamed(
    left: Seq<Span>,
    right: Seq<Span>,
    layers: Seq<Layer>,
    name: spec_fn(usize) -> usize,
    offset: int,
)
    requires
        forall|i: int|
            0 <= i < layers.len() ==> left[(#[trigger] layers[i]).ordinal as int] == right[name(
                layers[i].ordinal,
            ) as int],
    ensures
        covering(right, all_renamed(layers, name), offset) == all_renamed(
            covering(left, layers, offset),
            name,
        ),
    decreases layers.len(),
{
    reveal(Seq::filter);
    let others = all_renamed(layers, name);
    if layers.len() > 0 {
        let rest = layers.drop_last();
        assert forall|i: int| 0 <= i < rest.len() implies left[(#[trigger] rest[i]).ordinal as int]
            == right[name(rest[i].ordinal) as int] by {
            assert(rest[i] == layers[i]);
        }
        lemma_covering_renamed(left, right, rest, name, offset);
        assert(others.drop_last() =~= all_renamed(rest, name));
        let last = layers[layers.len() - 1];
        assert(left[last.ordinal as int] == right[name(last.ordinal) as int]);
        assert(others.last() == renamed(last, name));
        assert(covers(right, others.last(), offset) == covers(left, last, offset));
        let found = covering(left, rest, offset);
        assert(all_renamed(found.push(last), name) =~= all_renamed(found, name).push(
            renamed(last, name),
        ));
    } else {
        assert(others =~= Seq::<Layer>::empty());
        assert(all_renamed(covering(left, layers, offset), name) =~= Seq::<Layer>::empty());
    }
}

proof fn lemma_common_renamed(
    from: Seq<Layer>,
    to: Seq<Layer>,
    name: spec_fn(usize) -> usize,
    i: int,
)
    requires
        0 <= i,
        forall|a: int, b: int|
            0 <= a < from.len() && 0 <= b < to.len() && name((#[trigger] from[a]).ordinal) == name(
                (#[trigger] to[b]).ordinal,
            ) ==> from[a].ordinal == to[b].ordinal,
    ensures
        common_from(all_renamed(from, name), all_renamed(to, name), i) == common_from(from, to, i),
    decreases from.len() - i,
{
    if i < from.len() && i < to.len() {
        assert(all_renamed(from, name)[i] == renamed(from[i], name));
        assert(all_renamed(to, name)[i] == renamed(to[i], name));
        if from[i].ordinal == to[i].ordinal {
            lemma_common_renamed(from, to, name, i + 1);
        }
    }
}

proof fn lemma_transition_renamed(
    from: Seq<Layer>,
    to: Seq<Layer>,
    layers: Seq<Layer>,
    name: spec_fn(usize) -> usize,
)
    requires
        forall|i: int| 0 <= i < from.len() ==> layers.contains(#[trigger] from[i]),
        forall|i: int| 0 <= i < to.len() ==> layers.contains(#[trigger] to[i]),
        forall|i: int, j: int|
            0 <= i < layers.len() && 0 <= j < layers.len() && name((#[trigger] layers[i]).ordinal)
                == name((#[trigger] layers[j]).ordinal) ==> layers[i].ordinal == layers[j].ordinal,
    ensures
        transition(all_renamed(from, name), all_renamed(to, name)) == pieces_renamed(
            transition(from, to),
            name,
        ),
        drawn_from(transition(from, to), layers),
{
    assert forall|a: int, b: int|
        0 <= a < from.len() && 0 <= b < to.len() && name((#[trigger] from[a]).ordinal) == name(
            (#[trigger] to[b]).ordinal,
        ) implies from[a].ordinal == to[b].ordinal by {
        assert(layers.contains(from[a]) && layers.contains(to[b]));
        let (p, q) = (layers.index_of(from[a]), layers.index_of(to[b]));
        assert(layers[p] == from[a] && layers[q] == to[b]);
    }
    lemma_common_renamed(from, to, name, 0);
    lemma_common(from, to, 0);
    let kept = common_from(from, to, 0);
    let (ends, begins) = (closings(from, kept), openings(to, kept));
    assert(closings(all_renamed(from, name), kept) =~= pieces_renamed(ends, name));
    assert(openings(all_renamed(to, name), kept) =~= pieces_renamed(begins, name));
    assert(pieces_renamed(ends + begins, name) =~= pieces_renamed(ends, name) + pieces_renamed(
        begins,
        name,
    ));
    lemma_drawn_from_both(ends, begins, layers);
}

proof fn lemma_pieces_at_renamed(
    left: Seq<Span>,
    right: Seq<Span>,
    layers: Seq<Layer>,
    name: spec_fn(usize) -> usize,
    offset: int,
    ch: char,
)
    requires
        carries_over(left, right, layers, name),
    ensures
        pieces_at(right, all_renamed(layers, name), offset, ch) == pieces_renamed(
            pieces_at(left, layers, offset, ch),
            name,
        ),
        drawn_from(pieces_at(left, layers, offset, ch), layers),
{
    let others = all_renamed(layers, name);
    lemma_covering_renamed(left, right, layers, name, offset);
    lemma_covering_renamed(left, right, layers, name, offset - 1);
    lemma_filtered(layers, |layer: Layer| covers(left, layer, offset));
    lemma_filtered(layers, |layer: Layer| covers(left, layer, offset - 1));
    let from = open_after(left, layers, offset);
    let to = covering(left, layers, offset);
    assert(open_after(right, others, offset) =~= all_renamed(from, name));
    lemma_transition_renamed(from, to, layers, name);
    let tags = transition(from, to);
    let step = tags.push(Piece::Char(ch));
    assert(pieces_renamed(step, name) =~= pieces_renamed(tags, name).push(Piece::Char(ch)));
    assert forall|i: int| 0 <= i < step.len() implies match #[trigger] step[i] {
        Piece::Open(layer) => layers.contains(layer),
        Piece::Close(layer) => layers.contains(layer),
        Piece::Char(_) => true,
    } by {
        if i < tags.len() {
            assert(step[i] == tags[i]);
        }
    }
}

proof fn lemma_pieces_renamed(
    left: Seq<Span>,
    right: Seq<Span>,
    layers: Seq<Layer>,
    name: spec_fn(usize) -> usize,
    text: Seq<char>,
    count: int,
)
    requires
        carries_over(left, right, layers, name),
    ensures
        pieces(right, all_renamed(layers, name), text, count) == pieces_renamed(
            pieces(left, layers, text, count),
            name,
        ),
        drawn_from(pieces(left, layers, text, count), layers),
    decreases count,
{
    if count > 0 {
        let offset = count - 1;
        lemma_pieces_renamed(left, right, layers, name, text, offset);
        lemma_pieces_at_renamed(left, right, layers, name, offset, text[offset]);
        let earlier = pieces(left, layers, text, offset);
        let step = pieces_at(left, layers, offset, text[offset]);
        assert(pieces_renamed(earlier + step, name) =~= pieces_renamed(earlier, name)
            + pieces_renamed(step, name));
        lemma_drawn_from_both(earlier, step, layers);
    } else {
        assert(pieces_renamed(Seq::empty(), name) =~= Seq::<Piece>::empty());
    }
}

/// The pieces of a text, written with the layers of a list.
spec fn document_with(spans: Seq<Span>, layers: Seq<Layer>, text: Seq<char>) -> Seq<Piece> {
    pieces(spans, layers, text, text.len() as int) + closings(
        open_after(spans, layers, text.len() as int),
        0,
    )
}

proof fn lemma_document_renamed(
    left: Seq<Span>,
    right: Seq<Span>,
    layers: Seq<Layer>,
    name: spec_fn(usize) -> usize,
    text: Seq<char>,
)
    requires
        carries_over(left, right, layers, name),
    ensures
        document_with(right, all_renamed(layers, name), text) == pieces_renamed(
            document_with(left, layers, text),
            name,
        ),
        drawn_from(document_with(left, layers, text), layers),
{
    let count = text.len() as int;
    let others = all_renamed(layers, name);
    lemma_pieces_renamed(left, right, layers, name, text, count);
    lemma_covering_renamed(left, right, layers, name, count - 1);
    lemma_filtered(layers, |layer: Layer| covers(left, layer, count - 1));
    let open = open_after(left, layers, count);
    let ends = closings(open, 0);
    assert(open_after(right, others, count) =~= all_renamed(open, name));
    assert(closings(all_renamed(open, name), 0) =~= pieces_renamed(ends, name));
    let body = pieces(left, layers, text, count);
    assert(pieces_renamed(body + ends, name) =~= pieces_renamed(body, name) + pieces_renamed(
        ends,
        name,
    ));
    lemma_drawn_from_both(body, ends, layers);
}

proof fn lemma_written_renamed(
    left: Style,
    right: Style,
    layers: Seq<Layer>,
    name: spec_fn(usize) -> usize,
    pieces: Seq<Piece>,
)
    requires
        drawn_from(pieces, layers),
        forall|i: int|
            0 <= i < layers.len() ==> opening(left, #[trigger] layers[i]) == opening(
                right,
                renamed(layers[i], name),
            ) && closing(left, layers[i]) == closing(right, renamed(layers[i], name)),
    ensures
        written(left, pieces) == written(right, pieces_renamed(pieces, name)),
    decreases pieces.len(),
{
    let others = pieces_renamed(pieces, name);
    if pieces.len() > 0 {
        let rest = pieces.drop_last();
        assert(drawn_from(rest, layers)) by {
            assert forall|i: int| 0 <= i < rest.len() implies match #[trigger] rest[i] {
                Piece::Open(layer) => layers.contains(layer),
                Piece::Close(layer) => layers.contains(layer),
                Piece::Char(_) => true,
            } by {
                assert(rest[i] == pieces[i]);
            }
        }
        lemma_written_renamed(left, right, layers, name, rest);
        assert(others.drop_last() =~= pieces_renamed(rest, name));
        let last = pieces[pieces.len() - 1];
        assert(others.last() == piece_renamed(last, name));
        match last {
            Piece::Open(layer) => {
                assert(layers[layers.index_of(layer)] == layer);
            },
            Piece::Close(layer) => {
                assert(layers[layers.index_of(layer)] == layer);
            },
            Piece::Char(_) => {},
        }
    }
}

proof fn lemma_layers_renamed(
    left: Seq<Span>,
    right: Seq<Span>,
    order: Seq<usize>,
    name: spec_fn(usize) -> usize,
    given: int,
)
    requires
        0 <= given <= order.len(),
        forall|j: int|
            0 <= j < order.len() ==> left[#[trigger] order[j] as int] == right[name(
                order[j],
            ) as int],
    ensures
        layered(right, order.map_values(name), given) == all_renamed(
            layered(left, order, given),
            name,
        ),
    decreases given,
{
    let others = order.map_values(name);
    if given > 0 {
        lemma_layers_renamed(left, right, order, name, given - 1);
        lemma_layered(left, order, given - 1);
        let a = layered(left, order, given - 1);
        let b = layered(right, others, given - 1);
        let span = left[order[given - 1] as int];
        assert(span == right[others[given - 1] as int]);
        assert(taken(left, a, span) == taken(right, b, span)) by {
            if taken(left, a, span) {
                let q = choose|q: int|
                    0 <= q < a.len() && (#[trigger] a[q]).anchor && overlap(
                        left[a[q].ordinal as int],
                        span,
                    );
                assert(left[order[q] as int] == right[name(order[q]) as int]);
                assert(b[q] == renamed(a[q], name));
                assert(b[q].anchor && overlap(right[b[q].ordinal as int], span));
            }
            if taken(right, b, span) {
                let q = choose|q: int|
                    0 <= q < b.len() && (#[trigger] b[q]).anchor && overlap(
                        right[b[q].ordinal as int],
                        span,
                    );
                assert(left[order[q] as int] == right[name(order[q]) as int]);
                assert(b[q] == renamed(a[q], name));
                assert(a[q].anchor && overlap(left[a[q].ordinal as int], span));
            }
        }
        assert(layered(right, others, given) =~= all_renamed(layered(left, order, given), name));
    } else {
        assert(all_renamed(layered(left, order, given), name) =~= Seq::<Layer>::empty());
    }
}

/// Whether two messages look alike.
pub open spec fn look_alike(left: Style, right: Style, text: Seq<char>) -> bool {
    &&& markup_of(left, text) == markup_of(right, text)
    &&& hides_something(left, text.len() as int) == hides_something(right, text.len() as int)
    &&& quotes_something(left.spans, text.len() as int) == quotes_something(
        right.spans,
        text.len() as int,
    )
}

/// Whether a span of a list is a hidden spoiler.
spec fn holds_hidden(list: Seq<Span>, revealed: Set<(usize, usize)>) -> bool {
    exists|k: int|
        0 <= k < list.len() && (#[trigger] list[k]).kind is Spoiler && !revealed.contains(
            (list[k].start, list[k].end),
        )
}

/// Whether a span of a list is a quotation.
spec fn holds_quote(list: Seq<Span>) -> bool {
    exists|k: int| 0 <= k < list.len() && (#[trigger] list[k]).kind is Blockquote
}

/// What a label has to know about a message is decided by the spans that stand in
/// the document.
proof fn lemma_flags(style: Style, count: int)
    requires
        style.spans.len() <= usize::MAX,
    ensures
        ({
            let spans = style.spans;
            let list = spans_at(spans, document_order(spans, count, spans.len() as int));
            &&& hides_something(style, count) == holds_hidden(list, style.revealed)
            &&& quotes_something(spans, count) == holds_quote(list)
        }),
{
    let spans = style.spans;
    let order = document_order(spans, count, spans.len() as int);
    let list = spans_at(spans, order);
    lemma_document_order(spans, count, spans.len() as int);
    assert forall|k: int| 0 <= k < list.len() implies order[k] < spans.len() && usable(
        #[trigger] list[k],
        count,
    ) && list[k] == spans[order[k] as int] by {
        assert(order.contains(order[k]));
    }
    if hides_something(style, count) {
        let i = choose|i: int|
            0 <= i < spans.len() && usable(#[trigger] spans[i], count) && spans[i].kind is Spoiler
                && !style.revealed.contains((spans[i].start, spans[i].end));
        assert(order.contains(i as usize));
        let k = order.index_of(i as usize);
        assert(list[k] == spans[i]);
    }
    if holds_hidden(list, style.revealed) {
        let k = choose|k: int|
            0 <= k < list.len() && (#[trigger] list[k]).kind is Spoiler && !style.revealed.contains(
                (list[k].start, list[k].end),
            );
        assert(usable(spans[order[k] as int], count));
    }
    if quotes_something(spans, count) {
        let i = choose|i: int|
            0 <= i < spans.len() && usable(#[trigger] spans[i], count)
                && spans[i].kind is Blockquote;
        assert(order.contains(i as usize));
        let k = order.index_of(i as usize);
        assert(list[k] == spans[i]);
    }
    if holds_quote(list) {
        let k = choose|k: int| 0 <= k < list.len() && (#[trigger] list[k]).kind is Blockquote;
        assert(usable(spans[order[k] as int], count));
    }
}

/// What a message looks like is decided by its usable spans, in document order.
proof fn lemma_document_decides(left: Style, right: Style, text: Seq<char>)
    requires
        left.spans.len() <= usize::MAX,
        right.spans.len() <= usize::MAX,
        left.revealed == right.revealed,
        left.code_background == right.code_background,
        sorted_spans(usable_spans(left.spans, text.len() as int)) == sorted_spans(
            usable_spans(right.spans, text.len() as int),
        ),
    ensures
        look_alike(left, right, text),
{
    let count = text.len() as int;
    let (a, b) = (left.spans, right.spans);
    let (m, n) = (a.len() as int, b.len() as int);
    let (p, q) = (document_order(a, count, m), document_order(b, count, n));
    assert(a.take(m) =~= a);
    assert(b.take(n) =~= b);
    lemma_document_spans(a, count, m);
    lemma_document_spans(b, count, n);
    assert(spans_at(a, p) == spans_at(b, q));
    assert(p.len() == spans_at(a, p).len() && q.len() == spans_at(b, q).len());
    lemma_order_distinct(a, count, m);
    lemma_order_distinct(b, count, n);
    let name = |x: usize| q[p.index_of(x)];
    assert forall|j: int| 0 <= j < p.len() implies name(#[trigger] p[j]) == q[j] by {
        assert(p.contains(p[j]));
        let at = p.index_of(p[j]);
        assert(0 <= at < p.len() && p[at] == p[j]);
        assert(at == j);
    }
    assert(q =~= p.map_values(name));
    assert forall|j: int| 0 <= j < p.len() implies a[#[trigger] p[j] as int] == b[name(
        p[j],
    ) as int] by {
        assert(spans_at(a, p)[j] == a[p[j] as int]);
        assert(spans_at(b, q)[j] == b[q[j] as int]);
    }
    lemma_layers_renamed(a, b, p, name, p.len() as int);
    lemma_layered(a, p, p.len() as int);
    let layers = layers_of(a, count);
    assert(layers_of(b, count) == all_renamed(layers, name));
    assert(carries_over(a, b, layers, name)) by {
        assert forall|i: int| 0 <= i < layers.len() implies a[(#[trigger] layers[i]).ordinal as int]
            == b[name(layers[i].ordinal) as int] by {
            assert(layers[i].ordinal == p[i]);
        }
        assert forall|i: int, j: int|
            0 <= i < layers.len() && 0 <= j < layers.len() && name((#[trigger] layers[i]).ordinal)
                == name((#[trigger] layers[j]).ordinal) implies layers[i].ordinal
            == layers[j].ordinal by {
            assert(layers[i].ordinal == p[i] && layers[j].ordinal == p[j]);
            assert(name(p[i]) == q[i] && name(p[j]) == q[j]);
        }
    }
    lemma_document_renamed(a, b, layers, name, text);
    assert forall|i: int| 0 <= i < layers.len() implies opening(left, #[trigger] layers[i]) == opening(
        right,
        renamed(layers[i], name),
    ) && closing(left, layers[i]) == closing(right, renamed(layers[i], name)) by {
        assert(a[layers[i].ordinal as int] == b[name(layers[i].ordinal) as int]);
    }
    lemma_written_renamed(left, right, layers, name, document_with(a, layers, text));
    assert(document(a, text) == document_with(a, layers, text));
    assert(document(b, text) == document_with(b, all_renamed(layers, name), text));
    lemma_flags(left, count);
    lemma_flags(right, count);
}

proof fn lemma_usable_twice(spans: Seq<Span>, count: int)
    ensures
        usable_spans(usable_spans(spans, count), count) == usable_spans(spans, count),
        usable_spans(spans, count).len() <= spans.len(),
    decreases spans.len(),
{
    reveal(Seq::filter);
    if spans.len() > 0 {
        let rest = spans.drop_last();
        lemma_usable_twice(rest, count);
        let kept = usable_spans(rest, count);
        if usable(spans.last(), count) {
            assert(usable_spans(spans, count) =~= kept.push(spans.last()));
            assert(kept.push(spans.last()).drop_last() =~= kept);
        }
    }
}

/// Empty spans and spans that reach behind the text are discarded: without them a
/// message looks as with them, and where no other is left it is its escaped text.
pub proof fn law_unusable_spans_are_discarded(style: Style, text: Seq<char>)
    requires
        style.spans.len() <= usize::MAX,
    ensures
        look_alike(
            style,
            (Style { spans: usable_spans(style.spans, text.len() as int), ..style }),
            text,
        ),
        usable_spans(style.spans, text.len() as int).len() == 0 ==> markup_of(style, text) == escaped(
            text,
        ) && !hides_something(style, text.len() as int) && !quotes_something(
            style.spans,
            text.len() as int,
        ),
{
    let count = text.len() as int;
    let kept = Style { spans: usable_spans(style.spans, count), ..style };
    lemma_usable_twice(style.spans, count);
    lemma_document_decides(style, kept, text);
    if kept.spans.len() == 0 {
        law_plain_text_is_only_escaped(kept, text);
    }
}

/// Of two spans it does not matter which one is put first, unless they have the same
/// range.
proof fn lemma_put_in_either_order(list: Seq<Span>, a: Span, b: Span)
    requires
        a.start != b.start || a.end != b.end,
    ensures
        put(put(list, a), b) == put(put(list, b), a),
{
    if ranks(b, a) {
        lemma_put_first(list, b, a);
    } else {
        lemma_put_first(list, a, b);
    }
}

proof fn lemma_put_first(list: Seq<Span>, a: Span, b: Span)
    requires
        !ranks(b, a),
    ensures
        put(put(list, a), b) == put(put(list, b), a),
    decreases list.len(),
{
    if list.len() == 0 {
        assert(seq![b].drop_last() =~= list);
        assert(seq![a].push(b) =~= put(list, a).push(b));
    } else {
        let rest = list.drop_last();
        let last = list.last();
        assert(list.push(b).drop_last() =~= list);
        if !ranks(last, a) {
            let inner = put(rest, a);
            assert(inner.push(last).drop_last() =~= inner);
            if !ranks(last, b) {
                assert(put(rest, b).push(last).drop_last() =~= put(rest, b));
                lemma_put_first(rest, a, b);
            }
        }
    }
}

/// A span may be taken out of the list and put in last where none behind it has its
/// range.
proof fn lemma_put_last(spans: Seq<Span>, at: int)
    requires
        0 <= at < spans.len(),
        forall|j: int|
            at < j < spans.len() ==> (#[trigger] spans[j]).start != spans[at].start || spans[j].end
                != spans[at].end,
    ensures
        sorted_spans(spans) == put(sorted_spans(spans.remove(at)), spans[at]),
    decreases spans.len(),
{
    let rest = spans.drop_last();
    if at == spans.len() - 1 {
        assert(spans.remove(at) =~= rest);
    } else {
        assert forall|j: int| at < j < rest.len() implies (#[trigger] rest[j]).start
            != rest[at].start || rest[j].end != rest[at].end by {
            assert(rest[j] == spans[j]);
        }
        lemma_put_last(rest, at);
        let last = spans[spans.len() - 1];
        let others = spans.remove(at);
        assert(others.drop_last() =~= rest.remove(at));
        assert(others.last() == last);
        lemma_put_in_either_order(sorted_spans(rest.remove(at)), spans[at], last);
    }
}

/// Whether no two spans have the same range.
pub open spec fn ranges_differ(spans: Seq<Span>) -> bool {
    forall|i: int, j: int|
        0 <= i < j < spans.len() ==> (#[trigger] spans[i]).start != (#[trigger] spans[j]).start
            || spans[i].end != spans[j].end
}

proof fn lemma_sorted_permutation(left: Seq<Span>, right: Seq<Span>)
    requires
        ranges_differ(left),
        left.to_multiset() == right.to_multiset(),
    ensures
        sorted_spans(left) == sorted_spans(right),
    decreases left.len(),
{
    left.to_multiset_ensures();
    right.to_multiset_ensures();
    assert(left.len() == right.len());
    if left.len() > 0 {
        let last = left[left.len() - 1];
        let rest = left.remove(left.len() - 1);
        assert(rest =~= left.drop_last());
        assert(left.contains(last));
        assert(right.to_multiset().count(last) > 0);
        assert(right.contains(last));
        let at = right.index_of(last);
        let others = right.remove(at);
        assert(rest.to_multiset() == others.to_multiset());
        rest.to_multiset_ensures();
        others.to_multiset_ensures();
        assert(ranges_differ(rest)) by {
            assert forall|i: int, j: int| 0 <= i < j < rest.len() implies (
            #[trigger] rest[i]).start != (#[trigger] rest[j]).start || rest[i].end != rest[j].end by {
                assert(rest[i] == left[i] && rest[j] == left[j]);
            }
        }
        assert forall|j: int| at < j < right.len() implies (#[trigger] right[j]).start != last.start
            || right[j].end != last.end by {
            assert(others[j - 1] == right[j]);
            assert(others.contains(right[j]));
            assert(others.to_multiset().count(right[j]) > 0);
            assert(rest.contains(right[j]));
            let i = rest.index_of(right[j]);
            assert(left[i] == right[j]);
        }
        lemma_put_last(right, at);
        lemma_sorted_permutation(rest, others);
    } else {
        assert(left =~= right);
    }
}

proof fn lemma_usable_permutation(left: Seq<Span>, right: Seq<Span>, count: int)
    requires
        left.to_multiset() == right.to_multiset(),
    ensures
        usable_spans(left, count).to_multiset() == usable_spans(right, count).to_multiset(),
    decreases left.len(),
{
    left.to_multiset_ensures();
    right.to_multiset_ensures();
    if left.len() > 0 {
        let last = left[left.len() - 1];
        let rest = left.remove(left.len() - 1);
        assert(left.contains(last));
        assert(right.to_multiset().count(last) > 0);
        let at = right.index_of(last);
        let others = right.remove(at);
        lemma_usable_permutation(rest, others, count);
        lemma_usable_without(left, left.len() - 1, count);
        lemma_usable_without(right, at, count);
    } else {
        assert(left =~= right);
    }
}

proof fn lemma_usable_without(spans: Seq<Span>, at: int, count: int)
    requires
        0 <= at < spans.len(),
    ensures
        usable_spans(spans, count).to_multiset() == (if usable(spans[at], count) {
            usable_spans(spans.remove(at), count).to_multiset().insert(spans[at])
        } else {
            usable_spans(spans.remove(at), count).to_multiset()
        }),
    decreases spans.len(),
{
    reveal(Seq::filter);
    let rest = spans.drop_last();
    let last = spans[spans.len() - 1];
    let kept = usable_spans(rest, count);
    kept.to_multiset_ensures();
    if at == spans.len() - 1 {
        assert(spans.remove(at) =~= rest);
    } else {
        lemma_usable_without(rest, at, count);
        let others = spans.remove(at);
        assert(others.drop_last() =~= rest.remove(at));
        assert(others.last() == last);
        let fewer = usable_spans(rest.remove(at), count);
        fewer.to_multiset_ensures();
        assert(fewer.push(last).to_multiset() =~= fewer.to_multiset().insert(last));
        assert(fewer.to_multiset().insert(spans[at]).insert(last) =~= fewer.to_multiset().insert(
            last,
        ).insert(spans[at]));
    }
    assert(kept.push(last).to_multiset() =~= kept.to_multiset().insert(last));
}

proof fn lemma_usable_ranges_differ(spans: Seq<Span>, count: int)
    requires
        ranges_differ(spans),
    ensures
        ranges_differ(usable_spans(spans, count)),
        forall|i: int|
            0 <= i < usable_spans(spans, count).len() ==> spans.contains(
                #[trigger] usable_spans(spans, count)[i],
            ),
    decreases spans.len(),
{
    reveal(Seq::filter);
    if spans.len() > 0 {
        let rest = spans.drop_last();
        let last = spans[spans.len() - 1];
        assert forall|i: int, j: int| 0 <= i < j < rest.len() implies (#[trigger] rest[i]).start != (
        #[trigger] rest[j]).start || rest[i].end != rest[j].end by {
            assert(rest[i] == spans[i] && rest[j] == spans[j]);
        }
        lemma_usable_ranges_differ(rest, count);
        let inner = usable_spans(rest, count);
        let kept = usable_spans(spans, count);
        assert forall|i: int| 0 <= i < kept.len() implies spans.contains(#[trigger] kept[i]) by {
            if i < inner.len() {
                assert(kept[i] == inner[i]);
                assert(spans[rest.index_of(inner[i])] == kept[i]);
            } else {
                assert(spans[spans.len() - 1] == kept[i]);
            }
        }
        assert forall|i: int, j: int| 0 <= i < j < kept.len() implies (#[trigger] kept[i]).start != (
        #[trigger] kept[j]).start || kept[i].end != kept[j].end by {
            assert(kept[i] == inner[i]);
            if j < inner.len() {
                assert(kept[j] == inner[j]);
            } else {
                assert(rest.contains(inner[i]));
                let at = rest.index_of(inner[i]);
                assert(spans[at] == inner[i]);
            }
        }
    }
}

/// In which order spans are given does not matter where no two of them have the same
/// range.
pub proof fn law_order_of_spans_does_not_matter(left: Style, right: Style, text: Seq<char>)
    requires
        left.spans.len() <= usize::MAX,
        left.revealed == right.revealed,
        left.code_background == right.code_background,
        ranges_differ(left.spans),
        left.spans.to_multiset() == right.spans.to_multiset(),
    ensures
        look_alike(left, right, text),
{
    let count = text.len() as int;
    left.spans.to_multiset_ensures();
    right.spans.to_multiset_ensures();
    lemma_usable_permutation(left.spans, right.spans, count);
    lemma_usable_ranges_differ(left.spans, count);
    lemma_sorted_permutation(usable_spans(left.spans, count), usable_spans(right.spans, count));
    lemma_document_decides(left, right, text);
}

proof fn lemma_document_layers(spans: Seq<Span>, count: int)
    requires
        spans.len() <= usize::MAX,
    ensures
        forall|i: int|
            0 <= i < layers_of(spans, count).len() ==> (#[trigger] layers_of(
                spans,
                count,
            )[i]).ordinal < spans.len(),
{
    law_layers_are_the_usable_spans(spans, count);
    let layers = layers_of(spans, count);
    assert forall|i: int| 0 <= i < layers.len() implies (#[trigger] layers[i]).ordinal
        < spans.len() by {
        assert(has_layer(layers, layers[i].ordinal));
    }
}

/// The document of a text mentions layers of the text only.
proof fn lemma_document_drawn(spans: Seq<Span>, text: Seq<char>)
    ensures
        drawn_from(document(spans, text), layers_of(spans, text.len() as int)),
{
    let layers = layers_of(spans, text.len() as int);
    let name = |x: usize| x;
    assert(carries_over(spans, spans, layers, name));
    lemma_document_renamed(spans, spans, layers, name, text);
}

/// A background for inline code shows only in inline code: a message without any
/// looks the same on every background, and without one.
pub proof fn law_background_shows_in_code_only(left: Style, right: Style, text: Seq<char>)
    requires
        left.spans.len() <= usize::MAX,
        left.spans == right.spans,
        left.revealed == right.revealed,
        forall|i: int| 0 <= i < left.spans.len() ==> !((#[trigger] left.spans[i]).kind is Code),
    ensures
        look_alike(left, right, text),
{
    let layers = layers_of(left.spans, text.len() as int);
    let name = |x: usize| x;
    let whole = document(left.spans, text);
    lemma_document_layers(left.spans, text.len() as int);
    lemma_document_drawn(left.spans, text);
    assert forall|i: int| 0 <= i < layers.len() implies opening(left, #[trigger] layers[i]) == opening(
        right,
        renamed(layers[i], name),
    ) && closing(left, layers[i]) == closing(right, renamed(layers[i], name)) by {
        assert(!(left.spans[layers[i].ordinal as int].kind is Code));
        assert(renamed(layers[i], name) == layers[i]);
    }
    lemma_written_renamed(left, right, layers, name, whole);
    assert(pieces_renamed(whole, name) =~= whole);
}

// ---------------------------------------------------------------- elements

/// Where a character occurs first, or the length of the text where it does not.
pub open spec fn first_of(text: Seq<char>, ch: char) -> int
    decreases text.len(),
{
    if text.len() == 0 {
        0
    } else if text[0] == ch {
        0
    } else {
        1 + first_of(text.drop_first(), ch)
    }
}

/// The elements that are open once some markup was read, the outermost first, given
/// those that were open before. Nothing where a tag does not end, or where an element
/// is closed that is not the innermost open one.
pub open spec fn open_elements(markup: Seq<char>, open: Seq<Seq<char>>) -> Option<Seq<Seq<char>>>
    decreases markup.len(),
{
    if markup.len() == 0 {
        Some(open)
    } else if markup[0] != '<' {
        open_elements(markup.drop_first(), open)
    } else {
        let end = first_of(markup, '>');
        if end < 0 || end >= markup.len() {
            None
        } else {
            let tag = markup.subrange(1, end);
            let rest = markup.skip(end + 1);
            if tag.len() > 0 && tag[0] == '/' {
                if open.len() > 0 && open.last() == tag.skip(1) {
                    open_elements(rest, open.drop_last())
                } else {
                    None
                }
            } else {
                open_elements(rest, open.push(tag.take(first_of(tag, ' '))))
            }
        }
    }
}

/// Whether markup closes all elements that it opens, and no others.
pub open spec fn balanced(markup: Seq<char>) -> bool {
    open_elements(markup, Seq::empty()) == Some(Seq::<Seq<char>>::empty())
}

/// The elements that a layer opens, the outermost first.
pub open spec fn elements_of(style: Style, layer: Layer) -> Seq<Seq<char>> {
    match style.spans[layer.ordinal as int].kind {
        SpanKind::Bold => seq!["b"@],
        SpanKind::Italic => seq!["i"@],
        SpanKind::Underline => seq!["u"@],
        SpanKind::Strike => seq!["s"@],
        SpanKind::Code => if style.code_background is Some {
            seq!["span"@, "tt"@]
        } else {
            seq!["tt"@]
        },
        SpanKind::Pre(_) => seq!["tt"@],
        SpanKind::Link(_) | SpanKind::Mention(_) => if layer.anchor {
            seq!["a"@]
        } else {
            seq!["span"@]
        },
        SpanKind::Spoiler | SpanKind::Blockquote => seq!["span"@],
    }
}

proof fn lemma_first_of(text: Seq<char>, ch: char, at: int)
    requires
        0 <= at <= text.len(),
        at < text.len() ==> text[at] == ch,
        forall|i: int| 0 <= i < at ==> text[i] != ch,
    ensures
        first_of(text, ch) == at,
    decreases text.len(),
{
    if at > 0 {
        let rest = text.drop_first();
        assert forall|i: int| 0 <= i < at - 1 implies rest[i] != ch by {
            assert(rest[i] == text[i + 1]);
        }
        assert(at - 1 < rest.len() ==> rest[at - 1] == text[at]);
        lemma_first_of(rest, ch, at - 1);
    }
}

proof fn lemma_first_place_of(text: Seq<char>, ch: char)
    ensures
        0 <= first_of(text, ch) <= text.len(),
        first_of(text, ch) < text.len() ==> text[first_of(text, ch)] == ch,
        forall|i: int| 0 <= i < first_of(text, ch) ==> text[i] != ch,
    decreases text.len(),
{
    if text.len() > 0 && text[0] != ch {
        let rest = text.drop_first();
        lemma_first_place_of(rest, ch);
        assert forall|i: int| 0 <= i < first_of(text, ch) implies text[i] != ch by {
            if i > 0 {
                assert(text[i] == rest[i - 1]);
            }
        }
    }
}

/// Markup is read piece by piece.
proof fn lemma_read_on(left: Seq<char>, right: Seq<char>, open: Seq<Seq<char>>)
    requires
        open_elements(left, open) is Some,
    ensures
        open_elements(left + right, open) == open_elements(right, open_elements(left, open)->0),
    decreases left.len(),
{
    let all = left + right;
    if left.len() == 0 {
        assert(all =~= right);
    } else if left[0] != '<' {
        assert(all.drop_first() =~= left.drop_first() + right);
        lemma_read_on(left.drop_first(), right, open);
    } else {
        let end = first_of(left, '>');
        lemma_first_place_of(left, '>');
        lemma_first_of(all, '>', end);
        let tag = left.subrange(1, end);
        let rest = left.skip(end + 1);
        assert(all.subrange(1, end) =~= tag);
        assert(all.skip(end + 1) =~= rest + right);
        if tag.len() > 0 && tag[0] == '/' {
            lemma_read_on(rest, right, open.drop_last());
        } else {
            lemma_read_on(rest, right, open.push(tag.take(first_of(tag, ' '))));
        }
    }
}

/// What is open around some markup does not matter to it.
proof fn lemma_read_within(markup: Seq<char>, around: Seq<Seq<char>>, open: Seq<Seq<char>>)
    requires
        open_elements(markup, open) is Some,
    ensures
        open_elements(markup, around + open) == Some(around + open_elements(markup, open)->0),
    decreases markup.len(),
{
    if markup.len() == 0 {
    } else if markup[0] != '<' {
        lemma_read_within(markup.drop_first(), around, open);
    } else {
        let end = first_of(markup, '>');
        lemma_first_place_of(markup, '>');
        let tag = markup.subrange(1, end);
        let rest = markup.skip(end + 1);
        if tag.len() > 0 && tag[0] == '/' {
            assert((around + open).drop_last() =~= around + open.drop_last());
            lemma_read_within(rest, around, open.drop_last());
        } else {
            let name = tag.take(first_of(tag, ' '));
            assert((around + open).push(name) =~= around + open.push(name));
            lemma_read_within(rest, around, open.push(name));
        }
    }
}

/// Reads a tag that opens an element.
proof fn lemma_read_opening(
    markup: Seq<char>,
    name: Seq<char>,
    attributes: Seq<char>,
    open: Seq<Seq<char>>,
)
    requires
        markup == seq!['<'] + name + attributes + seq!['>'],
        name.len() > 0,
        name[0] != '/',
        forall|i: int| 0 <= i < name.len() ==> name[i] != '>' && name[i] != ' ',
        attributes.len() > 0 ==> attributes[0] == ' ',
        forall|i: int| 0 <= i < attributes.len() ==> attributes[i] != '>',
    ensures
        open_elements(markup, open) == Some(open.push(name)),
{
    let end = (name.len() + attributes.len() + 1) as int;
    assert(markup.len() == end + 1);
    assert(markup[0] == '<' && markup[end] == '>');
    assert forall|i: int| 0 <= i < end implies markup[i] != '>' by {
        if 0 < i <= name.len() {
            assert(markup[i] == name[i - 1]);
        } else if i > name.len() {
            assert(markup[i] == attributes[i - 1 - name.len()]);
        }
    }
    lemma_first_of(markup, '>', end);
    let tag = markup.subrange(1, end);
    assert(tag =~= name + attributes);
    assert(tag[0] == name[0]);
    if attributes.len() > 0 {
        assert(tag[name.len() as int] == attributes[0]);
    }
    lemma_first_of(tag, ' ', name.len() as int);
    assert(tag.take(name.len() as int) =~= name);
    assert(markup.skip(end + 1) =~= Seq::<char>::empty());
    reveal_with_fuel(open_elements, 2);
}

/// Reads a tag that closes an element.
proof fn lemma_read_closing(markup: Seq<char>, name: Seq<char>, open: Seq<Seq<char>>)
    requires
        markup == seq!['<', '/'] + name + seq!['>'],
        forall|i: int| 0 <= i < name.len() ==> name[i] != '>',
    ensures
        open_elements(markup, open.push(name)) == Some(open),
{
    let end = (name.len() + 2) as int;
    assert(markup.len() == end + 1);
    assert(markup[0] == '<' && markup[1] == '/' && markup[end] == '>');
    assert forall|i: int| 0 <= i < end implies markup[i] != '>' by {
        if i > 1 {
            assert(markup[i] == name[i - 2]);
        }
    }
    lemma_first_of(markup, '>', end);
    let tag = markup.subrange(1, end);
    assert(tag =~= seq!['/'] + name);
    assert(tag.skip(1) =~= name);
    assert(open.push(name).drop_last() =~= open);
    assert(markup.skip(end + 1) =~= Seq::<char>::empty());
    reveal_with_fuel(open_elements, 2);
}

proof fn lemma_digits_hold_no_markup(value: int)
    requires
        value >= 0,
    ensures
        forall|i: int| 0 <= i < digits(value).len() ==> !is_markup_char(#[trigger] digits(value)[i]),
    decreases value,
{
    if value >= 10 {
        let start = digits(value / 10);
        lemma_digits_hold_no_markup(value / 10);
        assert forall|i: int| 0 <= i < digits(value).len() implies !is_markup_char(
            #[trigger] digits(value)[i],
        ) by {
            if i < start.len() {
                assert(digits(value)[i] == start[i]);
            }
        }
    }
}

proof fn lemma_decimal_holds_no_markup(value: int)
    ensures
        forall|i: int| 0 <= i < decimal(value).len() ==> !is_markup_char(#[trigger] decimal(value)[i]),
{
    if value < 0 {
        lemma_digits_hold_no_markup(-value);
        let all = decimal(value);
        assert forall|i: int| 0 <= i < all.len() implies !is_markup_char(#[trigger] all[i]) by {
            if i > 0 {
                assert(all[i] == digits(-value)[i - 1]);
            }
        }
    } else {
        lemma_digits_hold_no_markup(value);
    }
}

proof fn lemma_names()
    ensures
        "b"@ == seq!['b'],
        "i"@ == seq!['i'],
        "u"@ == seq!['u'],
        "s"@ == seq!['s'],
        "a"@ == seq!['a'],
        "tt"@ == seq!['t', 't'],
        "span"@ == seq!['s', 'p', 'a', 'n'],
{
    reveal_strlit("b");
    reveal_strlit("i");
    reveal_strlit("u");
    reveal_strlit("s");
    reveal_strlit("a");
    reveal_strlit("tt");
    reveal_strlit("span");
    assert("b"@ =~= seq!['b']);
    assert("i"@ =~= seq!['i']);
    assert("u"@ =~= seq!['u']);
    assert("s"@ =~= seq!['s']);
    assert("a"@ =~= seq!['a']);
    assert("tt"@ =~= seq!['t', 't']);
    assert("span"@ =~= seq!['s', 'p', 'a', 'n']);
}

/// Reads a tag without attributes.
proof fn lemma_read_plain(markup: Seq<char>, name: Seq<char>, open: Seq<Seq<char>>)
    requires
        markup =~= seq!['<'] + name + seq!['>'],
        name.len() > 0,
        name[0] != '/',
        forall|i: int| 0 <= i < name.len() ==> name[i] != '>' && name[i] != ' ',
    ensures
        open_elements(markup, open) == Some(open + seq![name]),
{
    let none = Seq::<char>::empty();
    assert(markup =~= seq!['<'] + name + none + seq!['>']);
    lemma_read_opening(markup, name, none, open);
    assert(open.push(name) =~= open + seq![name]);
}

proof fn lemma_opening_opens(style: Style, layer: Layer, open: Seq<Seq<char>>)
    ensures
        open_elements(opening(style, layer), open) == Some(open + elements_of(style, layer)),
{
    lemma_names();
    reveal_strlit("<b>");
    reveal_strlit("<i>");
    reveal_strlit("<u>");
    reveal_strlit("<s>");
    reveal_strlit("<tt>");
    reveal_strlit("<span>");
    let start = opening(style, layer);
    let span = style.spans[layer.ordinal as int];
    match span.kind {
        SpanKind::Bold => lemma_read_plain(start, "b"@, open),
        SpanKind::Italic => lemma_read_plain(start, "i"@, open),
        SpanKind::Underline => lemma_read_plain(start, "u"@, open),
        SpanKind::Strike => lemma_read_plain(start, "s"@, open),
        SpanKind::Code => match style.code_background {
            None => lemma_read_plain(start, "tt"@, open),
            Some(background) => {
                law_escaped_text_holds_no_markup(background);
                reveal_strlit("<span background=\"");
                reveal_strlit("\"><tt>");
                reveal_strlit(" background=\"");
                reveal_strlit("\"");
                let value = escaped(background);
                let attributes = " background=\""@ + value + "\""@;
                let first = seq!['<'] + "span"@ + attributes + seq!['>'];
                assert(start =~= first + "<tt>"@);
                assert forall|i: int| 0 <= i < attributes.len() implies attributes[i] != '>' by {
                    if 13 <= i < 13 + value.len() {
                        assert(attributes[i] == value[i - 13]);
                        assert(!is_markup_char(value[i - 13]));
                    }
                }
                lemma_read_opening(first, "span"@, attributes, open);
                lemma_read_on(first, "<tt>"@, open);
                lemma_read_plain("<tt>"@, "tt"@, open.push("span"@));
                assert(open.push("span"@) + seq!["tt"@] =~= open + seq!["span"@, "tt"@]);
            },
        },
        SpanKind::Pre(_) => lemma_read_plain(start, "tt"@, open),
        SpanKind::Link(target) => if layer.anchor {
            law_escaped_text_holds_no_markup(target@);
            reveal_strlit("<a href=\"");
            reveal_strlit("\">");
            reveal_strlit(" href=\"");
            reveal_strlit("\"");
            let value = escaped(target@);
            let attributes = " href=\""@ + value + "\""@;
            assert(start =~= seq!['<'] + "a"@ + attributes + seq!['>']);
            assert forall|i: int| 0 <= i < attributes.len() implies attributes[i] != '>' by {
                if 7 <= i < 7 + value.len() {
                    assert(attributes[i] == value[i - 7]);
                    assert(!is_markup_char(value[i - 7]));
                }
            }
            lemma_read_opening(start, "a"@, attributes, open);
            assert(open.push("a"@) =~= open + seq!["a"@]);
        } else {
            lemma_read_plain(start, "span"@, open);
        },
        SpanKind::Mention(user) => if layer.anchor {
            lemma_decimal_holds_no_markup(user as int);
            reveal_strlit("<a href=\"omg-user:");
            reveal_strlit("\">");
            reveal_strlit(" href=\"omg-user:");
            reveal_strlit("\"");
            let value = decimal(user as int);
            let attributes = " href=\"omg-user:"@ + value + "\""@;
            assert(start =~= seq!['<'] + "a"@ + attributes + seq!['>']);
            assert forall|i: int| 0 <= i < attributes.len() implies attributes[i] != '>' by {
                if 16 <= i < 16 + value.len() {
                    assert(attributes[i] == value[i - 16]);
                    assert(!is_markup_char(value[i - 16]));
                }
            }
            lemma_read_opening(start, "a"@, attributes, open);
            assert(open.push("a"@) =~= open + seq!["a"@]);
        } else {
            lemma_read_plain(start, "span"@, open);
        },
        SpanKind::Spoiler => if style.revealed.contains((span.start, span.end)) {
            lemma_read_plain(start, "span"@, open);
        } else {
            reveal_strlit("<span alpha=\"1%\">");
            reveal_strlit(" alpha=\"1%\"");
            assert(start =~= seq!['<'] + "span"@ + " alpha=\"1%\""@ + seq!['>']);
            lemma_read_opening(start, "span"@, " alpha=\"1%\""@, open);
            assert(open.push("span"@) =~= open + seq!["span"@]);
        },
        SpanKind::Blockquote => lemma_read_plain(start, "span"@, open),
    }
}

/// Reads the end of one element.
proof fn lemma_read_end(markup: Seq<char>, name: Seq<char>, open: Seq<Seq<char>>)
    requires
        markup =~= seq!['<', '/'] + name + seq!['>'],
        forall|i: int| 0 <= i < name.len() ==> name[i] != '>',
    ensures
        open_elements(markup, open + seq![name]) == Some(open),
{
    lemma_read_closing(markup, name, open);
    assert(open.push(name) =~= open + seq![name]);
}

proof fn lemma_closing_closes(style: Style, layer: Layer, open: Seq<Seq<char>>)
    ensures
        open_elements(closing(style, layer), open + elements_of(style, layer)) == Some(open),
{
    lemma_names();
    reveal_strlit("</b>");
    reveal_strlit("</i>");
    reveal_strlit("</u>");
    reveal_strlit("</s>");
    reveal_strlit("</tt>");
    reveal_strlit("</a>");
    reveal_strlit("</span>");
    let end = closing(style, layer);
    match style.spans[layer.ordinal as int].kind {
        SpanKind::Bold => lemma_read_end(end, "b"@, open),
        SpanKind::Italic => lemma_read_end(end, "i"@, open),
        SpanKind::Underline => lemma_read_end(end, "u"@, open),
        SpanKind::Strike => lemma_read_end(end, "s"@, open),
        SpanKind::Code => if style.code_background is Some {
            reveal_strlit("</tt></span>");
            let outer = open + seq!["span"@];
            assert(end =~= "</tt>"@ + "</span>"@);
            assert(open + seq!["span"@, "tt"@] =~= outer + seq!["tt"@]);
            lemma_read_end("</tt>"@, "tt"@, outer);
            lemma_read_on("</tt>"@, "</span>"@, outer + seq!["tt"@]);
            lemma_read_end("</span>"@, "span"@, open);
        } else {
            lemma_read_end(end, "tt"@, open);
        },
        SpanKind::Pre(_) => lemma_read_end(end, "tt"@, open),
        SpanKind::Link(_) | SpanKind::Mention(_) => if layer.anchor {
            lemma_read_end(end, "a"@, open);
        } else {
            lemma_read_end(end, "span"@, open);
        },
        SpanKind::Spoiler | SpanKind::Blockquote => lemma_read_end(end, "span"@, open),
    }
}

/// The end of a layer closes exactly the elements that its beginning opens, the
/// innermost first: whatever is open around the layer stays open. So a layer around
/// balanced markup is balanced.
pub proof fn law_layers_close_what_they_open(
    style: Style,
    layer: Layer,
    open: Seq<Seq<char>>,
    within: Seq<char>,
)
    ensures
        open_elements(opening(style, layer), open) == Some(open + elements_of(style, layer)),
        open_elements(closing(style, layer), open + elements_of(style, layer)) == Some(open),
        balanced(within) ==> balanced(opening(style, layer) + within + closing(style, layer)),
{
    lemma_opening_opens(style, layer, open);
    lemma_closing_closes(style, layer, open);
    if balanced(within) {
        let none = Seq::<Seq<char>>::empty();
        let opened = none + elements_of(style, layer);
        let (start, end) = (opening(style, layer), closing(style, layer));
        lemma_opening_opens(style, layer, none);
        lemma_closing_closes(style, layer, none);
        lemma_read_on(start, within, none);
        lemma_read_within(within, opened, none);
        assert(opened + none =~= opened);
        lemma_read_on(start + within, end, none);
    }
}

/// The elements that some layers open, the outermost first.
spec fn all_elements(style: Style, layers: Seq<Layer>) -> Seq<Seq<char>>
    decreases layers.len(),
{
    if layers.len() == 0 {
        Seq::empty()
    } else {
        all_elements(style, layers.drop_last()) + elements_of(style, layers.last())
    }
}

proof fn lemma_escaped_char_is_text(ch: char, open: Seq<Seq<char>>)
    ensures
        open_elements(escaped_char(ch), open) == Some(open),
{
    let one = seq![ch];
    assert(one.drop_last() =~= Seq::<char>::empty());
    law_escaped_text_holds_no_markup(one);
    assert(escaped(one) =~= escaped_char(ch)) by {
        assert(escaped(Seq::<char>::empty()) =~= Seq::<char>::empty());
    }
    lemma_read_text(escaped_char(ch), open);
}

proof fn lemma_read_text(text: Seq<char>, open: Seq<Seq<char>>)
    requires
        forall|i: int| 0 <= i < text.len() ==> !is_markup_char(#[trigger] text[i]),
    ensures
        open_elements(text, open) == Some(open),
    decreases text.len(),
{
    if text.len() > 0 {
        assert(!is_markup_char(text[0]));
        assert forall|i: int| 0 <= i < text.drop_first().len() implies !is_markup_char(
            #[trigger] text.drop_first()[i],
        ) by {
            assert(text.drop_first()[i] == text[i + 1]);
        }
        lemma_read_text(text.drop_first(), open);
    }
}

proof fn lemma_written_opens(style: Style, pieces: Seq<Piece>)
    requires
        open_behind(pieces) is Some,
    ensures
        open_elements(written(style, pieces), Seq::empty()) == Some(
            all_elements(style, open_behind(pieces)->0),
        ),
    decreases pieces.len(),
{
    let none = Seq::<Seq<char>>::empty();
    if pieces.len() > 0 {
        let rest = pieces.drop_last();
        lemma_written_opens(style, rest);
        let layers = open_behind(rest)->0;
        let open = all_elements(style, layers);
        lemma_read_on(written(style, rest), piece_text(style, pieces.last()), none);
        match pieces.last() {
            Piece::Char(ch) => lemma_escaped_char_is_text(ch, open),
            Piece::Open(layer) => {
                lemma_opening_opens(style, layer, open);
                assert(layers.push(layer).drop_last() =~= layers);
            },
            Piece::Close(layer) => {
                lemma_closing_closes(style, layer, all_elements(style, layers.drop_last()));
            },
        }
    }
}

/// The markup of a message closes all elements that it opens, each where it is the
/// innermost open one, and no others, whatever the message holds.
pub proof fn law_markup_is_balanced(style: Style, text: Seq<char>)
    requires
        style.spans.len() <= usize::MAX,
    ensures
        balanced(markup_of(style, text)),
{
    law_tags_are_well_nested(style.spans, text);
    lemma_written_opens(style, document(style.spans, text));
}

// --------------------------------------------------------------- revealing

/// Whether `part` stands in a text at `at`.
pub open spec fn stands_in(text: Seq<char>, part: Seq<char>, at: int) -> bool {
    0 <= at && at + part.len() <= text.len() && text.subrange(at, at + part.len()) == part
}

/// A text with each occurrence of `part` replaced, read from the left.
pub open spec fn replaced(text: Seq<char>, part: Seq<char>, by: Seq<char>) -> Seq<char>
    decreases text.len(),
{
    if text.len() == 0 {
        Seq::empty()
    } else if part.len() > 0 && stands_in(text, part, 0) {
        by + replaced(text.skip(part.len() as int), part, by)
    } else {
        seq![text[0]] + replaced(text.drop_first(), part, by)
    }
}

/// How a hidden spoiler begins.
pub open spec fn veil() -> Seq<char> {
    "<span alpha=\"1%\">"@
}

/// A text in which each angle bracket that opens is followed by one that closes.
spec fn tags_end(text: Seq<char>) -> bool {
    forall|i: int|
        0 <= i < text.len() && text[i] == '<' ==> exists|j: int|
            i < j < text.len() && #[trigger] text[j] == '>'
}

proof fn lemma_veil()
    ensures
        veil().len() == 17,
        veil()[0] == '<',
        veil()[1] == 's',
        veil()[2] == 'p',
        veil()[5] == ' ',
        veil()[6] == 'a',
        forall|i: int| 0 <= i < 16 ==> veil()[i] != '>',
        forall|i: int| 1 <= i < 17 ==> veil()[i] != '<',
{
    reveal_strlit("<span alpha=\"1%\">");
}

/// The beginnings of spoilers are replaced piece by piece, since none reaches over
/// the end of a text whose tags end.
proof fn lemma_replaced_on(left: Seq<char>, right: Seq<char>, by: Seq<char>)
    requires
        tags_end(left),
    ensures
        replaced(left + right, veil(), by) == replaced(left, veil(), by) + replaced(
            right,
            veil(),
            by,
        ),
    decreases left.len(),
{
    lemma_veil();
    let all = left + right;
    let part = veil();
    let n = part.len() as int;
    if left.len() == 0 {
        assert(all =~= right);
        assert(replaced(left, part, by) + replaced(right, part, by) =~= replaced(right, part, by));
    } else {
        assert(stands_in(all, part, 0) == stands_in(left, part, 0)) by {
            if stands_in(all, part, 0) {
                let found = all.subrange(0, n);
                assert(all[0] == found[0]);
                assert(left[0] == '<');
                let j = choose|j: int| 0 < j < left.len() && #[trigger] left[j] == '>';
                if left.len() < n {
                    assert(found[j] == all[j]);
                    assert(part[j] != '>');
                }
                assert(left.subrange(0, n) =~= found);
            }
            if stands_in(left, part, 0) {
                assert(all.subrange(0, n) =~= left.subrange(0, n));
            }
        }
        if stands_in(left, part, 0) {
            let rest = left.skip(n);
            assert(all.skip(n) =~= rest + right);
            lemma_tags_end_behind(left, n);
            lemma_replaced_on(rest, right, by);
            assert(by + (replaced(rest, part, by) + replaced(right, part, by)) =~= (by + replaced(
                rest,
                part,
                by,
            )) + replaced(right, part, by));
        } else {
            let rest = left.drop_first();
            assert(all.drop_first() =~= rest + right);
            lemma_tags_end_behind(left, 1);
            assert(left.skip(1) =~= rest);
            lemma_replaced_on(rest, right, by);
            let one = seq![left[0]];
            assert(all[0] == left[0]);
            assert(one + (replaced(rest, part, by) + replaced(right, part, by)) =~= (one
                + replaced(rest, part, by)) + replaced(right, part, by));
        }
    }
}

proof fn lemma_tags_end_behind(text: Seq<char>, at: int)
    requires
        tags_end(text),
        0 <= at <= text.len(),
    ensures
        tags_end(text.skip(at)),
{
    let rest = text.skip(at);
    assert forall|i: int| 0 <= i < rest.len() && rest[i] == '<' implies exists|j: int|
        i < j < rest.len() && #[trigger] rest[j] == '>' by {
        assert(text[at + i] == '<');
        let j = choose|j: int| at + i < j < text.len() && #[trigger] text[j] == '>';
        assert(rest[j - at] == '>');
    }
}

proof fn lemma_tags_end_both(left: Seq<char>, right: Seq<char>)
    requires
        tags_end(left),
        tags_end(right),
    ensures
        tags_end(left + right),
{
    let all = left + right;
    assert forall|i: int| 0 <= i < all.len() && all[i] == '<' implies exists|j: int|
        i < j < all.len() && #[trigger] all[j] == '>' by {
        if i < left.len() {
            assert(left[i] == '<');
            let j = choose|j: int| i < j < left.len() && #[trigger] left[j] == '>';
            assert(all[j] == '>');
        } else {
            let n = left.len() as int;
            assert(right[i - n] == '<');
            let j = choose|j: int| i - n < j < right.len() && #[trigger] right[j] == '>';
            assert(all[j + n] == '>');
        }
    }
}

/// Where the beginning of no spoiler stands, nothing is replaced.
proof fn lemma_nothing_replaced(text: Seq<char>, by: Seq<char>)
    requires
        forall|i: int| 0 <= i < text.len() ==> !#[trigger] stands_in(text, veil(), i),
    ensures
        replaced(text, veil(), by) == text,
    decreases text.len(),
{
    lemma_veil();
    if text.len() > 0 {
        assert(!stands_in(text, veil(), 0));
        let rest = text.drop_first();
        let n = veil().len() as int;
        assert forall|i: int| 0 <= i < rest.len() implies !#[trigger] stands_in(rest, veil(), i) by {
            assert(!stands_in(text, veil(), i + 1));
            if i + n <= rest.len() {
                assert(rest.subrange(i, i + n) =~= text.subrange(i + 1, i + 1 + n));
            }
        }
        lemma_nothing_replaced(rest, by);
        assert(seq![text[0]] + rest =~= text);
    }
}

/// Whether what begins at `i` is not the beginning of a hidden spoiler.
spec fn differs_at(text: Seq<char>, i: int) -> bool {
    i + 6 >= text.len() || text[i + 1] != 's' || text[i + 5] != ' ' || text[i + 6] != 'a'
}

/// Whether no angle bracket of a text begins a hidden spoiler.
spec fn veils_nothing(text: Seq<char>) -> bool {
    forall|i: int| 0 <= i < text.len() && #[trigger] text[i] == '<' ==> differs_at(text, i)
}

proof fn lemma_unveiled(text: Seq<char>, by: Seq<char>)
    requires
        veils_nothing(text),
    ensures
        replaced(text, veil(), by) == text,
{
    lemma_veil();
    let part = veil();
    assert forall|i: int| 0 <= i < text.len() implies !#[trigger] stands_in(text, part, i) by {
        if stands_in(text, part, i) {
            let found = text.subrange(i, i + 17);
            assert(found[0] == text[i] && found[1] == text[i + 1] && found[5] == text[i + 5]
                && found[6] == text[i + 6]);
        }
    }
    lemma_nothing_replaced(text, by);
}

/// A text without angle brackets ends all its tags, and hides nothing.
proof fn lemma_text_veils_nothing(text: Seq<char>)
    requires
        forall|i: int| 0 <= i < text.len() ==> !is_markup_char(#[trigger] text[i]),
    ensures
        tags_end(text),
        veils_nothing(text),
{
    assert forall|i: int| 0 <= i < text.len() implies text[i] != '<' by {
        assert(!is_markup_char(text[i]));
    }
}

/// A tag, made of its first characters, a value, and its last characters.
proof fn lemma_tag_veils_nothing(start: Seq<char>, value: Seq<char>, end: Seq<char>)
    requires
        start.len() >= 3,
        start[0] == '<',
        start[1] != 's' || (start.len() > 6 && start[6] != 'a'),
        forall|i: int| 1 <= i < start.len() ==> start[i] != '<',
        forall|i: int| 0 <= i < value.len() ==> !is_markup_char(#[trigger] value[i]),
        tags_end(end),
        veils_nothing(end),
        end.contains('>'),
    ensures
        tags_end(start + value + end),
        veils_nothing(start + value + end),
{
    let all = start + value + end;
    let n = (start.len() + value.len()) as int;
    let close = end.index_of('>');
    assert(all[n + close] == '>');
    assert forall|i: int| 0 <= i < all.len() && all[i] == '<' implies i == 0 || i >= n by {
        if 0 < i < start.len() {
            assert(all[i] == start[i]);
        } else if start.len() <= i < n {
            assert(all[i] == value[i - start.len()]);
            assert(!is_markup_char(value[i - start.len()]));
        }
    }
    assert forall|i: int| 0 <= i < all.len() && all[i] == '<' implies exists|j: int|
        i < j < all.len() && #[trigger] all[j] == '>' by {
        if i >= n {
            assert(end[i - n] == '<');
            let j = choose|j: int| i - n < j < end.len() && #[trigger] end[j] == '>';
            assert(all[j + n] == '>');
        }
    }
    assert forall|i: int| 0 <= i < all.len() && #[trigger] all[i] == '<' implies differs_at(
        all,
        i,
    ) by {
        if i >= n {
            assert(end[i - n] == '<');
            assert(differs_at(end, i - n));
            if i + 6 < all.len() {
                assert(all[i + 1] == end[i - n + 1] && all[i + 5] == end[i - n + 5] && all[i + 6]
                    == end[i - n + 6]);
            }
        } else {
            assert(all[1] == start[1]);
            if start.len() > 6 {
                assert(all[6] == start[6]);
            }
        }
    }
}

/// How a layer is written once all spoilers are revealed.
proof fn lemma_opening_unveiled(hidden: Style, shown: Style, layer: Layer)
    requires
        layer.ordinal < hidden.spans.len(),
        hidden.spans == shown.spans,
        hidden.code_background == shown.code_background,
        hidden.revealed == Set::<(usize, usize)>::empty(),
        forall|i: int|
            0 <= i < shown.spans.len() ==> shown.revealed.contains(
                ((#[trigger] shown.spans[i]).start, shown.spans[i].end),
            ),
    ensures
        tags_end(opening(hidden, layer)),
        replaced(opening(hidden, layer), veil(), "<span>"@) == opening(shown, layer),
{
    reveal_strlit("<b>");
    reveal_strlit("<i>");
    reveal_strlit("<u>");
    reveal_strlit("<s>");
    reveal_strlit("<tt>");
    reveal_strlit("<span>");
    let span = hidden.spans[layer.ordinal as int];
    let start = opening(hidden, layer);
    assert(shown.revealed.contains((span.start, span.end)));
    match span.kind {
        SpanKind::Code => match hidden.code_background {
            None => {
                assert(start[3] == '>');
            },
            Some(background) => {
                law_escaped_text_holds_no_markup(background);
                reveal_strlit("<span background=\"");
                reveal_strlit("\"><tt>");
                let end = "\"><tt>"@;
                assert(end[1] == '>' && end[5] == '>');
                assert(end.contains('>'));
                lemma_tag_veils_nothing("<span background=\""@, escaped(background), end);
            },
        },
        SpanKind::Link(target) if layer.anchor => {
            law_escaped_text_holds_no_markup(target@);
            reveal_strlit("<a href=\"");
            reveal_strlit("\">");
            assert("\">"@[1] == '>');
            assert("\">"@.contains('>'));
            lemma_tag_veils_nothing("<a href=\""@, escaped(target@), "\">"@);
        },
        SpanKind::Mention(user) if layer.anchor => {
            lemma_decimal_holds_no_markup(user as int);
            reveal_strlit("<a href=\"omg-user:");
            reveal_strlit("\">");
            assert("\">"@[1] == '>');
            assert("\">"@.contains('>'));
            lemma_tag_veils_nothing("<a href=\"omg-user:"@, decimal(user as int), "\">"@);
        },
        SpanKind::Spoiler => {
            lemma_veil();
            let n = veil().len() as int;
            assert(start[16] == '>') by {
                reveal_strlit("<span alpha=\"1%\">");
            }
            assert(start.subrange(0, n) =~= veil());
            assert(start.skip(n) =~= Seq::<char>::empty());
            reveal_with_fuel(replaced, 2);
            assert("<span>"@ + Seq::<char>::empty() =~= "<span>"@);
        },
        _ => {
            assert(start[start.len() - 1] == '>');
        },
    }
    if !(span.kind is Spoiler) {
        lemma_unveiled(start, "<span>"@);
    }
}

proof fn lemma_closing_unveiled(style: Style, layer: Layer)
    ensures
        tags_end(closing(style, layer)),
        veils_nothing(closing(style, layer)),
{
    reveal_strlit("</b>");
    reveal_strlit("</i>");
    reveal_strlit("</u>");
    reveal_strlit("</s>");
    reveal_strlit("</tt>");
    reveal_strlit("</a>");
    reveal_strlit("</span>");
    reveal_strlit("</tt></span>");
    let end = closing(style, layer);
    assert(end[end.len() - 1] == '>');
}

proof fn lemma_written_unveiled(hidden: Style, shown: Style, layers: Seq<Layer>, pieces: Seq<Piece>)
    requires
        drawn_from(pieces, layers),
        forall|i: int| 0 <= i < layers.len() ==> (#[trigger] layers[i]).ordinal < hidden.spans.len(),
        hidden.spans == shown.spans,
        hidden.code_background == shown.code_background,
        hidden.revealed == Set::<(usize, usize)>::empty(),
        forall|i: int|
            0 <= i < shown.spans.len() ==> shown.revealed.contains(
                ((#[trigger] shown.spans[i]).start, shown.spans[i].end),
            ),
    ensures
        tags_end(written(hidden, pieces)),
        replaced(written(hidden, pieces), veil(), "<span>"@) == written(shown, pieces),
    decreases pieces.len(),
{
    if pieces.len() > 0 {
        let rest = pieces.drop_last();
        assert(drawn_from(rest, layers)) by {
            assert forall|i: int| 0 <= i < rest.len() implies match #[trigger] rest[i] {
                Piece::Open(layer) => layers.contains(layer),
                Piece::Close(layer) => layers.contains(layer),
                Piece::Char(_) => true,
            } by {
                assert(rest[i] == pieces[i]);
            }
        }
        lemma_written_unveiled(hidden, shown, layers, rest);
        let last = pieces[pieces.len() - 1];
        let text = piece_text(hidden, last);
        match last {
            Piece::Open(layer) => {
                assert(layers[layers.index_of(layer)] == layer);
                lemma_opening_unveiled(hidden, shown, layer);
            },
            Piece::Close(layer) => {
                lemma_closing_unveiled(hidden, layer);
                lemma_unveiled(text, "<span>"@);
            },
            Piece::Char(ch) => {
                let one = seq![ch];
                law_escaped_text_holds_no_markup(one);
                assert(one.drop_last() =~= Seq::<char>::empty());
                assert(escaped(one) =~= escaped_char(ch)) by {
                    assert(escaped(Seq::<char>::empty()) =~= Seq::<char>::empty());
                }
                lemma_text_veils_nothing(text);
                lemma_unveiled(text, "<span>"@);
            },
        }
        lemma_tags_end_both(written(hidden, rest), text);
        lemma_replaced_on(written(hidden, rest), text, "<span>"@);
    }
}

/// Revealing all spoilers changes nothing but the tags that hide them, and leaves
/// none hidden.
pub proof fn law_revealing_lifts_the_veils(hidden: Style, shown: Style, text: Seq<char>)
    requires
        hidden.spans.len() <= usize::MAX,
        hidden.spans == shown.spans,
        hidden.code_background == shown.code_background,
        hidden.revealed == Set::<(usize, usize)>::empty(),
        forall|i: int|
            0 <= i < shown.spans.len() ==> shown.revealed.contains(
                ((#[trigger] shown.spans[i]).start, shown.spans[i].end),
            ),
    ensures
        markup_of(shown, text) == replaced(markup_of(hidden, text), veil(), "<span>"@),
        !hides_something(shown, text.len() as int),
        quotes_something(shown.spans, text.len() as int) == quotes_something(
            hidden.spans,
            text.len() as int,
        ),
{
    let layers = layers_of(hidden.spans, text.len() as int);
    lemma_document_layers(hidden.spans, text.len() as int);
    lemma_document_drawn(hidden.spans, text);
    lemma_written_unveiled(hidden, shown, layers, document(hidden.spans, text));
}

proof fn lemma_plain(style: Style, text: Seq<char>, count: int)
    requires
        0 <= count <= text.len(),
    ensures
        written(style, pieces(style.spans, Seq::empty(), text, count)) == escaped(text.take(count)),
    decreases count,
{
    let none = Seq::<Layer>::empty();
    if count > 0 {
        reveal(Seq::filter);
        lemma_plain(style, text, count - 1);
        lemma_written_at(
            style,
            none,
            pieces(style.spans, none, text, count - 1),
            count - 1,
            text[count - 1],
        );
        assert(covering(style.spans, none, count - 1) =~= none);
        assert(open_after(style.spans, none, count - 1) =~= none);
        assert(closings(none, 0) =~= Seq::<Piece>::empty());
        assert(openings(none, 0) =~= Seq::<Piece>::empty());
        assert(text.take(count).drop_last() =~= text.take(count - 1));
        let start = escaped(text.take(count - 1));
        assert(start + Seq::<char>::empty() + Seq::<char>::empty() =~= start);
    } else {
        assert(text.take(0) =~= Seq::<char>::empty());
    }
}

/// A message without usable spans is its escaped text.
pub proof fn law_plain_text_is_only_escaped(style: Style, text: Seq<char>)
    requires
        style.spans.len() <= usize::MAX,
        forall|i: int| 0 <= i < style.spans.len() ==> !usable(#[trigger] style.spans[i], text.len() as int),
    ensures
        markup_of(style, text) == escaped(text),
{
    let count = text.len() as int;
    let layers = layers_of(style.spans, count);
    law_layers_are_the_usable_spans(style.spans, count);
    assert(layers =~= Seq::<Layer>::empty()) by {
        if layers.len() > 0 {
            assert(layers[0].ordinal == layers[0].ordinal);
            assert(has_layer(layers, layers[0].ordinal));
        }
    }
    reveal(Seq::filter);
    lemma_plain(style, text, count);
    assert(open_after(style.spans, layers, count) =~= Seq::<Layer>::empty());
    assert(closings(Seq::empty(), 0) =~= Seq::<Piece>::empty());
    let body = pieces(style.spans, layers, text, count);
    assert(body + Seq::<Piece>::empty() =~= body);
    assert(text.take(count) =~= text);
}

} // verus!
