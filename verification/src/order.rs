//! Stable ordering by a number and two texts.

use vstd::prelude::*;

use crate::text::text_before;
use crate::text::same_text;

verus! {

/// What a row is ordered by: a number first, then two texts.
pub struct SortKey {
    pub rank: u64,
    pub first: String,
    pub second: String,
}

/// The mathematical value of a sort key.
pub struct Rank {
    pub rank: nat,
    pub first: Seq<char>,
    pub second: Seq<char>,
}

impl View for SortKey {
    type V = Rank;

    open spec fn view(&self) -> Rank {
        Rank { rank: self.rank as nat, first: self.first@, second: self.second@ }
    }
}

/// The values of a list of keys.
pub open spec fn ranks(keys: Seq<SortKey>) -> Seq<Rank> {
    Seq::new(keys.len(), |i: int| keys[i]@)
}

/// A number and a text to order by.
pub open spec fn rank_of(rank: nat, first: Seq<char>) -> Rank {
    Rank { rank, first, second: Seq::empty() }
}

impl Rank {
    /// Strict order: the number decides, then the first text, then the second.
    pub open spec fn lt(self, other: Rank) -> bool {
        ||| self.rank < other.rank
        ||| self.rank == other.rank && crate::text::text_lt(self.first, other.first)
        ||| self.rank == other.rank && self.first == other.first && crate::text::text_lt(
            self.second,
            other.second,
        )
    }
}

/// Row `a` comes before row `b`: by its key, or by its place where the keys are equal.
pub open spec fn comes_before(keys: Seq<Rank>, a: int, b: int) -> bool {
    keys[a].lt(keys[b]) || (keys[a] == keys[b] && a < b)
}

/// Every row of `keys` once, each before the next.
pub open spec fn is_stable_order(keys: Seq<Rank>, order: Seq<int>) -> bool {
    &&& order.len() == keys.len()
    &&& forall|i: int| 0 <= i < order.len() ==> 0 <= #[trigger] order[i] < keys.len()
    &&& forall|k: int| 0 <= k < keys.len() ==> #[trigger] order.contains(k)
    &&& forall|i: int, j: int|
        0 <= i < j < order.len() ==> comes_before(keys, #[trigger] order[i], #[trigger] order[j])
}

/// Where a new row goes: in front of the first row with a greater key.
pub open spec fn place_in(keys: Seq<Rank>, order: Seq<int>, key: Rank) -> int
    decreases order.len(),
{
    if order.len() == 0 {
        0
    } else if place_in(keys, order.drop_last(), key) < order.len() - 1 {
        place_in(keys, order.drop_last(), key)
    } else if key.lt(keys[order.last()]) {
        order.len() - 1
    } else {
        order.len() as int
    }
}

/// The stable order of the rows by their keys.
pub open spec fn order_of(keys: Seq<Rank>) -> Seq<int>
    decreases keys.len(),
{
    if keys.len() == 0 {
        seq![]
    } else {
        let order = order_of(keys.drop_last());
        order.insert(place_in(keys, order, keys.last()), keys.len() - 1)
    }
}

/// The items that an order names, in that order.
pub open spec fn picked<T>(items: Seq<T>, order: Seq<int>) -> Seq<T> {
    Seq::new(order.len(), |i: int| items[order[i]])
}

/// Of two keys one is less, or they are equal.
pub proof fn lemma_lt_total(a: Rank, b: Rank)
    ensures
        a.lt(b) || b.lt(a) || a == b,
        !(a.lt(b) && b.lt(a)),
        !a.lt(a),
{
    crate::text::lemma_text_lt_total(a.first, b.first);
    crate::text::lemma_text_lt_total(a.second, b.second);
    crate::text::lemma_text_lt_irreflexive(a.first);
    crate::text::lemma_text_lt_irreflexive(a.second);
    if crate::text::text_lt(a.first, b.first) && crate::text::text_lt(b.first, a.first) {
        crate::text::lemma_text_lt_transitive(a.first, b.first, a.first);
    }
    if crate::text::text_lt(a.second, b.second) && crate::text::text_lt(b.second, a.second) {
        crate::text::lemma_text_lt_transitive(a.second, b.second, a.second);
    }
}

proof fn lemma_lt_transitive(a: Rank, b: Rank, c: Rank)
    requires
        a.lt(b),
        b.lt(c),
    ensures
        a.lt(c),
{
    if crate::text::text_lt(a.first, b.first) && crate::text::text_lt(b.first, c.first) {
        crate::text::lemma_text_lt_transitive(a.first, b.first, c.first);
    }
    if crate::text::text_lt(a.second, b.second) && crate::text::text_lt(b.second, c.second) {
        crate::text::lemma_text_lt_transitive(a.second, b.second, c.second);
    }
}

proof fn lemma_place_in(keys: Seq<Rank>, order: Seq<int>, key: Rank)
    ensures
        0 <= place_in(keys, order, key) <= order.len(),
        forall|i: int|
            0 <= i < place_in(keys, order, key) ==> !key.lt(keys[#[trigger] order[i]]),
        place_in(keys, order, key) < order.len() ==> key.lt(
            keys[order[place_in(keys, order, key)]],
        ),
    decreases order.len(),
{
    if order.len() > 0 {
        lemma_place_in(keys, order.drop_last(), key);
        let p = place_in(keys, order.drop_last(), key);
        assert forall|i: int| 0 <= i < p implies !key.lt(keys[#[trigger] order[i]]) by {
            assert(order.drop_last()[i] == order[i]);
        }
        if p < order.len() - 1 {
            assert(order.drop_last()[p] == order[p]);
        }
    }
}

proof fn lemma_place_in_same(a: Seq<Rank>, b: Seq<Rank>, order: Seq<int>, key: Rank)
    requires
        forall|i: int| 0 <= i < order.len() ==> a[#[trigger] order[i]] == b[order[i]],
    ensures
        place_in(a, order, key) == place_in(b, order, key),
    decreases order.len(),
{
    if order.len() > 0 {
        assert forall|i: int| 0 <= i < order.len() - 1 implies a[#[trigger] order.drop_last()[i]]
            == b[order.drop_last()[i]] by {
            assert(order.drop_last()[i] == order[i]);
        }
        lemma_place_in_same(a, b, order.drop_last(), key);
        assert(order.last() == order[order.len() - 1]);
    }
}

proof fn lemma_insert_keeps_order(keys: Seq<Rank>, order: Seq<int>)
    requires
        keys.len() > 0,
        is_stable_order(keys.drop_last(), order),
    ensures
        is_stable_order(
            keys,
            order.insert(place_in(keys, order, keys.last()), keys.len() - 1),
        ),
{
    let n = keys.len() - 1;
    let shorter = keys.drop_last();
    let key = keys.last();
    let p = place_in(keys, order, key);
    lemma_place_in(keys, order, key);
    let longer = order.insert(p, n);
    assert forall|i: int| 0 <= i < longer.len() implies 0 <= #[trigger] longer[i] < keys.len() by {
        if i < p {
            assert(longer[i] == order[i]);
        } else if i > p {
            assert(longer[i] == order[i - 1]);
        }
    }
    assert forall|k: int| 0 <= k < keys.len() implies #[trigger] longer.contains(k) by {
        if k == n {
            assert(longer[p] == n);
        } else {
            assert(order.contains(k));
            let i = choose|i: int| 0 <= i < order.len() && order[i] == k;
            if i < p {
                assert(longer[i] == k);
            } else {
                assert(longer[i + 1] == k);
            }
        }
    }
    assert forall|i: int, j: int| 0 <= i < j < longer.len() implies comes_before(
        keys,
        #[trigger] longer[i],
        #[trigger] longer[j],
    ) by {
        let oi = if i < p {
            i
        } else {
            i - 1
        };
        let oj = if j < p {
            j
        } else {
            j - 1
        };
        if i != p && j != p {
            assert(longer[i] == order[oi] && longer[j] == order[oj]);
            assert(comes_before(shorter, order[oi], order[oj]));
        } else if j == p {
            assert(longer[i] == order[i]);
            lemma_lt_total(keys[order[i]], key);
        } else {
            assert(longer[j] == order[j - 1]);
            if p < j - 1 {
                assert(comes_before(shorter, order[p], order[j - 1]));
                if keys[order[p]].lt(keys[order[j - 1]]) {
                    lemma_lt_transitive(key, keys[order[p]], keys[order[j - 1]]);
                }
            }
        }
    }
}

/// The order of the rows is stable: each row once, sorted by key, equal keys in
/// the order in which they came.
pub proof fn order_of_is_stable(keys: Seq<Rank>)
    ensures
        is_stable_order(keys, order_of(keys)),
    decreases keys.len(),
{
    if keys.len() > 0 {
        order_of_is_stable(keys.drop_last());
        lemma_insert_keeps_order(keys, order_of(keys.drop_last()));
    }
}

proof fn lemma_same_prefix(keys: Seq<Rank>, a: Seq<int>, b: Seq<int>, n: int)
    requires
        is_stable_order(keys, a),
        is_stable_order(keys, b),
        0 <= n <= keys.len(),
    ensures
        forall|i: int| 0 <= i < n ==> #[trigger] a[i] == b[i],
    decreases n,
{
    if n > 0 {
        lemma_same_prefix(keys, a, b, n - 1);
        let x = a[n - 1];
        let y = b[n - 1];
        if x != y {
            assert(b.contains(x));
            let j = choose|j: int| 0 <= j < b.len() && b[j] == x;
            assert(a.contains(y));
            let i = choose|i: int| 0 <= i < a.len() && a[i] == y;
            lemma_lt_total(keys[x], keys[x]);
            lemma_lt_total(keys[y], keys[y]);
            lemma_lt_total(keys[x], keys[y]);
            if j < n - 1 {
                assert(a[j] == b[j]);
                assert(comes_before(keys, a[j], a[n - 1]));
            }
            if i < n - 1 {
                assert(b[i] == a[i]);
                assert(comes_before(keys, b[i], b[n - 1]));
            }
            assert(comes_before(keys, b[n - 1], b[j]));
            assert(comes_before(keys, a[n - 1], a[i]));
        }
    }
}

/// There is only one stable order of given keys.
pub proof fn stable_order_is_unique(keys: Seq<Rank>, order: Seq<int>)
    requires
        is_stable_order(keys, order),
    ensures
        order == order_of(keys),
{
    order_of_is_stable(keys);
    lemma_same_prefix(keys, order, order_of(keys), keys.len() as int);
    assert(order =~= order_of(keys));
}

/// Whether the first key is less than the second.
fn key_before(a: &SortKey, b: &SortKey) -> (r: bool)
    ensures
        r == a@.lt(b@),
{
    if a.rank != b.rank {
        a.rank < b.rank
    } else if text_before(a.first.as_str(), b.first.as_str()) {
        true
    } else if same_text(a.first.as_str(), b.first.as_str()) {
        text_before(a.second.as_str(), b.second.as_str())
    } else {
        false
    }
}

/// The positions of an order as mathematical integers.
pub open spec fn positions(order: Seq<usize>) -> Seq<int> {
    Seq::new(order.len(), |i: int| order[i] as int)
}

/// The rows of `keys` in stable order.
pub fn stable_order(keys: &Vec<SortKey>) -> (r: Vec<usize>)
    ensures
        positions(r@) == order_of(ranks(keys@)),
        is_stable_order(ranks(keys@), positions(r@)),
{
    let mut order: Vec<usize> = Vec::new();
    let ghost all = ranks(keys@);
    let mut n: usize = 0;
    assert(positions(order@) =~= order_of(all.take(0)));
    while n < keys.len()
        invariant
            n <= keys@.len(),
            all == ranks(keys@),
            positions(order@) == order_of(all.take(n as int)),
            order@.len() == n,
        decreases keys@.len() - n,
    {
        let ghost before = positions(order@);
        let ghost now = all.take(n + 1);
        proof {
            assert(now.drop_last() =~= all.take(n as int));
            order_of_is_stable(all.take(n as int));
            assert forall|i: int| 0 <= i < n implies all[#[trigger] before[i]] == now[before[i]] by {}
            lemma_place_in_same(all, now, before, all[n as int]);
        }
        let mut p: usize = 0;
        assert(place_in(all, before.take(0), all[n as int]) == 0);
        let mut i: usize = 0;
        while i < n
            invariant
                i <= n,
                n < keys@.len(),
                order@.len() == n,
                all == ranks(keys@),
                before == positions(order@),
                forall|j: int| 0 <= j < n ==> 0 <= #[trigger] before[j] < n,
                p <= i,
                p == place_in(all, before.take(i as int), all[n as int]),
            decreases n - i,
        {
            assert(before.take(i + 1).drop_last() =~= before.take(i as int));
            assert(before.take(i + 1).last() == before[i as int]);
            assert(before[i as int] == order@[i as int]);
            if p == i && !key_before(&keys[n], &keys[order[i]]) {
                p = i + 1;
            }
            i = i + 1;
        }
        assert(before.take(i as int) =~= before);
        order.insert(p, n);
        assert(positions(order@) =~= before.insert(p as int, n as int));
        n = n + 1;
    }
    assert(all.take(n as int) =~= all);
    proof {
        order_of_is_stable(all);
    }
    order
}

/// An order puts smaller ranks first; under one rank the first text decides,
/// then the second; and what is equal keeps its place.
pub proof fn order_goes_by_rank_then_texts(keys: Seq<Rank>, order: Seq<int>, i: int, j: int)
    requires
        is_stable_order(keys, order),
        0 <= i < j < order.len(),
    ensures
        keys[order[i]].rank <= keys[order[j]].rank,
        keys[order[i]].rank == keys[order[j]].rank && keys[order[i]].first != keys[order[j]].first
            ==> crate::text::text_lt(keys[order[i]].first, keys[order[j]].first),
        keys[order[i]].rank == keys[order[j]].rank && keys[order[i]].first == keys[order[j]].first
            && keys[order[i]].second != keys[order[j]].second ==> crate::text::text_lt(
            keys[order[i]].second,
            keys[order[j]].second,
        ),
        keys[order[i]] == keys[order[j]] ==> order[i] < order[j],
{
    crate::text::lemma_text_lt_irreflexive(keys[order[i]].first);
    crate::text::lemma_text_lt_irreflexive(keys[order[i]].second);
}

} // verus!
