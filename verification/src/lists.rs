//! What holds of what a filter keeps of a list.

use vstd::prelude::*;

verus! {

/// A filter keeps exactly the items that it is for.
pub proof fn lemma_kept<T>(items: Seq<T>, keep: spec_fn(T) -> bool)
    ensures
        forall|item: T| #[trigger]
            items.filter(keep).contains(item) <==> items.contains(item) && keep(item),
    decreases items.len(),
{
    reveal(Seq::filter);
    let kept = items.filter(keep);
    if items.len() > 0 {
        let rest = items.drop_last();
        lemma_kept(rest, keep);
        assert forall|item: T| #[trigger]
            kept.contains(item) <==> items.contains(item) && keep(item) by {
            if kept.contains(item) {
                let p = kept.index_of(item);
                if p < rest.filter(keep).len() {
                    assert(rest.filter(keep)[p] == item);
                    assert(rest.filter(keep).contains(item));
                    assert(items[rest.index_of(item)] == item);
                } else {
                    assert(items[items.len() - 1] == item);
                }
            }
            if items.contains(item) && keep(item) {
                let p = items.index_of(item);
                if p < rest.len() {
                    assert(rest[p] == item);
                    assert(rest.filter(keep).contains(item));
                    assert(kept[rest.filter(keep).index_of(item)] == item);
                } else {
                    assert(kept[kept.len() - 1] == item);
                }
            }
        }
    }
}

/// What a filter keeps stays in order.
pub proof fn lemma_kept_in_order<T>(items: Seq<T>, keep: spec_fn(T) -> bool, i: int, j: int) -> (
    places: (int, int))
    requires
        0 <= i < j < items.len(),
        keep(items[i]),
        keep(items[j]),
    ensures
        0 <= places.0 < places.1 < items.filter(keep).len(),
        items.filter(keep)[places.0] == items[i],
        items.filter(keep)[places.1] == items[j],
{
    let (front, back) = (items.take(j), items.skip(j));
    assert(items =~= front + back);
    Seq::filter_distributes_over_add(front, back, keep);
    lemma_kept(front, keep);
    assert(front[i] == items[i]);
    assert(front.filter(keep).contains(items[i]));
    let place = front.filter(keep).index_of(items[i]);
    let (one, rest) = (back.take(1), back.skip(1));
    assert(back =~= one + rest);
    Seq::filter_distributes_over_add(one, rest, keep);
    assert(one.filter(keep) =~= seq![items[j]]) by {
        reveal(Seq::filter);
        reveal_with_fuel(Seq::filter, 2);
        assert(one.drop_last() =~= Seq::<T>::empty());
        assert(one.last() == items[j]);
    }
    let at = front.filter(keep).len() as int;
    assert(items.filter(keep) =~= front.filter(keep) + (seq![items[j]] + rest.filter(keep)));
    assert(items.filter(keep)[at] == items[j]);
    assert(items.filter(keep)[place] == items[i]);
    (place, at)
}

} // verus!
