//! Facts about filtered sequences.

use vstd::prelude::*;

verus! {

/// The filter of a prefix grows by the next item where that is kept.
pub proof fn lemma_filter_next<A>(items: Seq<A>, keep: spec_fn(A) -> bool, n: int)
    requires
        0 <= n < items.len(),
    ensures
        items.take(n + 1).filter(keep) == if keep(items[n]) {
            items.take(n).filter(keep).push(items[n])
        } else {
            items.take(n).filter(keep)
        },
{
    reveal(Seq::filter);
    assert(items.take(n + 1).drop_last() =~= items.take(n));
    assert(items.take(n + 1).last() == items[n]);
}

/// The filter of nothing is nothing, and the filter of the whole prefix that of all items.
pub proof fn lemma_filter_ends<A>(items: Seq<A>, keep: spec_fn(A) -> bool)
    ensures
        items.take(0).filter(keep) == Seq::<A>::empty(),
        items.take(items.len() as int) == items,
{
    reveal(Seq::filter);
    assert(items.take(0) =~= Seq::<A>::empty());
    assert(items.take(items.len() as int) =~= items);
}

/// A filter that keeps every item changes nothing.
pub proof fn lemma_filter_keeps_all<A>(items: Seq<A>, keep: spec_fn(A) -> bool)
    requires
        forall|i: int| 0 <= i < items.len() ==> keep(#[trigger] items[i]),
    ensures
        items.filter(keep) == items,
    decreases items.len(),
{
    reveal(Seq::filter);
    if items.len() > 0 {
        lemma_filter_keeps_all(items.drop_last(), keep);
        assert(keep(items[items.len() - 1]));
        assert(items.drop_last().push(items.last()) =~= items);
    }
}

/// Filtering twice keeps what both filters keep.
pub proof fn lemma_filter_twice<A>(
    items: Seq<A>,
    first: spec_fn(A) -> bool,
    second: spec_fn(A) -> bool,
    both: spec_fn(A) -> bool,
)
    requires
        forall|item: A| #[trigger] both(item) == (first(item) && second(item)),
    ensures
        items.filter(first).filter(second) == items.filter(both),
    decreases items.len(),
{
    reveal(Seq::filter);
    if items.len() > 0 {
        lemma_filter_twice(items.drop_last(), first, second, both);
        let kept = items.drop_last().filter(first);
        if first(items.last()) {
            assert(kept.push(items.last()).drop_last() =~= kept);
        }
        assert(both(items.last()) == (first(items.last()) && second(items.last())));
    }
}

/// The concatenation of a prefix grows by what the next item gives.
pub proof fn lemma_flatten_next<A, B>(items: Seq<A>, parts: spec_fn(A) -> Seq<B>, n: int)
    requires
        0 <= n < items.len(),
    ensures
        items.take(n + 1).map_values(parts).flatten_alt() == items.take(n).map_values(
            parts,
        ).flatten_alt() + parts(items[n]),
{
    let next = items.take(n + 1).map_values(parts);
    assert(next.drop_last() =~= items.take(n).map_values(parts));
    assert(next.last() == parts(items[n]));
}

/// The concatenation of nothing is nothing, and that of the whole prefix that of all items.
pub proof fn lemma_flatten_ends<A, B>(items: Seq<A>, parts: spec_fn(A) -> Seq<B>)
    ensures
        items.take(0).map_values(parts).flatten_alt() == Seq::<B>::empty(),
        items.take(items.len() as int) == items,
{
    assert(items.take(0).map_values(parts) =~= Seq::<Seq<B>>::empty());
    assert(items.take(items.len() as int) =~= items);
}

/// What one item gives is somewhere in the concatenation.
pub proof fn lemma_flatten_holds<A, B>(
    items: Seq<A>,
    parts: spec_fn(A) -> Seq<B>,
    i: int,
    k: int,
)
    requires
        0 <= i < items.len(),
        0 <= k < parts(items[i]).len(),
    ensures
        items.map_values(parts).flatten_alt().contains(parts(items[i])[k]),
    decreases items.len(),
{
    let all = items.map_values(parts);
    let before = items.drop_last();
    assert(all.drop_last() =~= before.map_values(parts));
    let head = before.map_values(parts).flatten_alt();
    let own = parts(items.last());
    assert(all.flatten_alt() == head + own);
    if i < items.len() - 1 {
        assert(before[i] == items[i]);
        lemma_flatten_holds(before, parts, i, k);
        let m = choose|m: int| 0 <= m < head.len() && head[m] == parts(items[i])[k];
        assert(all.flatten_alt()[m] == parts(items[i])[k]);
    } else {
        assert(all.flatten_alt()[head.len() + k] == parts(items[i])[k]);
    }
}

/// What is in the concatenation was given by some item.
pub proof fn lemma_flatten_from<A, B>(
    items: Seq<A>,
    parts: spec_fn(A) -> Seq<B>,
    n: int,
) -> (place: (int, int))
    requires
        0 <= n < items.map_values(parts).flatten_alt().len(),
    ensures
        0 <= place.0 < items.len(),
        0 <= place.1 < parts(items[place.0]).len(),
        items.map_values(parts).flatten_alt()[n] == parts(items[place.0])[place.1],
    decreases items.len(),
{
    let all = items.map_values(parts);
    if items.len() == 0 {
        assert(all =~= Seq::<Seq<B>>::empty());
        (0, 0)
    } else {
        let before = items.drop_last();
        assert(all.drop_last() =~= before.map_values(parts));
        let head = before.map_values(parts).flatten_alt();
        assert(all.flatten_alt() == head + parts(items.last()));
        if n < head.len() {
            let place = lemma_flatten_from(before, parts, n);
            assert(before[place.0] == items[place.0]);
            place
        } else {
            (items.len() - 1, n - head.len())
        }
    }
}

} // verus!
