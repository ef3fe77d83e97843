//! The spans of a trace as a tree.

use vstd::prelude::*;

use crate::observe::traces::TraceView;
use crate::observe::SpanView;
use crate::order;
use crate::order::{stable_order, SortKey};
use crate::text;
use crate::text::same_text;

verus! {

#[derive(Debug, PartialEq, Eq)]
pub struct SpanTreeRow {
    pub span: SpanView,
    pub depth: usize,
    pub child_count: usize,
    pub orphaned_parent: bool,
}

impl Clone for SpanTreeRow {
    fn clone(&self) -> (r: Self)
        ensures
            r == *self,
    {
        SpanTreeRow {
            span: self.span.clone(),
            depth: self.depth,
            child_count: self.child_count,
            orphaned_parent: self.orphaned_parent,
        }
    }
}

/// Some span has this id.
pub open spec fn has_span(spans: Seq<SpanView>, id: Seq<char>) -> bool {
    exists|i: int| 0 <= i < spans.len() && (#[trigger] spans[i]).span_id@ == id
}

/// The span is a child of the span with this id.
pub open spec fn is_child(span: SpanView, id: Seq<char>) -> bool {
    span.parent_span_id matches Some(parent) && parent@ == id
}

/// The span names a parent that is not among the spans.
pub open spec fn is_orphan(spans: Seq<SpanView>, span: SpanView) -> bool {
    span.parent_span_id matches Some(parent) && !has_span(spans, parent@)
}

/// The span stands at the top: it names no parent, or one that is not there.
pub open spec fn is_root(spans: Seq<SpanView>, span: SpanView) -> bool {
    span.parent_span_id is None || is_orphan(spans, span)
}

/// The first `n` places whose span satisfies `pred`.
pub open spec fn places_where(
    spans: Seq<SpanView>,
    pred: spec_fn(SpanView) -> bool,
    n: int,
) -> Seq<int>
    decreases n,
{
    if n <= 0 {
        seq![]
    } else if pred(spans[n - 1]) {
        places_where(spans, pred, n - 1).push(n - 1)
    } else {
        places_where(spans, pred, n - 1)
    }
}

/// Places ordered by the ids of their spans.
pub open spec fn by_span_id(spans: Seq<SpanView>, places: Seq<int>) -> Seq<int> {
    order::picked(
        places,
        order::order_of(places.map_values(|p: int| order::rank_of(0, spans[p].span_id@))),
    )
}

/// The roots, ordered by span id.
pub open spec fn roots_of(spans: Seq<SpanView>) -> Seq<int> {
    by_span_id(
        spans,
        places_where(spans, |span: SpanView| is_root(spans, span), spans.len() as int),
    )
}

/// The children of the span at a place, ordered by span id.
pub open spec fn children_of(spans: Seq<SpanView>, place: int) -> Seq<int> {
    by_span_id(
        spans,
        places_where(
            spans,
            |span: SpanView| is_child(span, spans[place].span_id@),
            spans.len() as int,
        ),
    )
}

/// A place in the tree: which span, and how deep.
pub struct Node {
    pub place: int,
    pub depth: nat,
}

/// Places at one depth.
pub open spec fn at_depth(places: Seq<int>, depth: nat) -> Seq<Node> {
    places.map_values(|place: int| Node { place, depth })
}

/// How many places were not seen.
pub open spec fn unseen(seen: Seq<bool>) -> nat
    decreases seen.len(),
{
    if seen.len() == 0 {
        0
    } else if seen.last() {
        unseen(seen.drop_last())
    } else {
        unseen(seen.drop_last()) + 1
    }
}

pub proof fn lemma_unseen_update(seen: Seq<bool>, place: int)
    requires
        0 <= place < seen.len(),
        !seen[place],
    ensures
        unseen(seen.update(place, true)) + 1 == unseen(seen),
    decreases seen.len(),
{
    let after = seen.update(place, true);
    if place == seen.len() - 1 {
        assert(after.drop_last() =~= seen.drop_last());
    } else {
        assert(after.drop_last() =~= seen.drop_last().update(place, true));
        lemma_unseen_update(seen.drop_last(), place);
    }
}

/// The walk of a tree from the nodes that are still to do: each node that was
/// not seen before, then at once its children, one deeper.
pub open spec fn walk(spans: Seq<SpanView>, todo: Seq<Node>, seen: Seq<bool>) -> Seq<Node>
    decreases unseen(seen), todo.len(),
{
    if todo.len() == 0 {
        seq![]
    } else {
        let node = todo[0];
        let rest = todo.drop_first();
        if 0 <= node.place < seen.len() && !seen[node.place] {
            proof {
                lemma_unseen_update(seen, node.place);
            }
            seq![node] + walk(
                spans,
                at_depth(children_of(spans, node.place), node.depth + 1) + rest,
                seen.update(node.place, true),
            )
        } else {
            walk(spans, rest, seen)
        }
    }
}

/// Where a walk starts: at the roots, and then at every place, so that spans
/// whose parents form a cycle are shown too.
pub open spec fn starts_of(spans: Seq<SpanView>) -> Seq<Node> {
    at_depth(roots_of(spans), 0) + at_depth(Seq::new(spans.len(), |i: int| i), 0)
}

/// The nodes of the tree, in the order in which they are shown.
pub open spec fn tree_of(spans: Seq<SpanView>) -> Seq<Node> {
    walk(spans, starts_of(spans), Seq::new(spans.len(), |i: int| false))
}

/// The row that shows a node.
pub open spec fn row_of(spans: Seq<SpanView>, node: Node, row: SpanTreeRow) -> bool {
    &&& row.span == spans[node.place]
    &&& row.depth == node.depth
    &&& row.child_count == children_of(spans, node.place).len()
    &&& row.orphaned_parent == is_orphan(spans, spans[node.place])
}

/// The rows that show nodes.
pub open spec fn rows_of(spans: Seq<SpanView>, nodes: Seq<Node>, rows: Seq<SpanTreeRow>) -> bool {
    &&& rows.len() == nodes.len()
    &&& forall|i: int| 0 <= i < rows.len() ==> row_of(spans, nodes[i], #[trigger] rows[i])
}

// ---------------------------------------------------------------------------
// Places
// ---------------------------------------------------------------------------

proof fn lemma_places_where(spans: Seq<SpanView>, pred: spec_fn(SpanView) -> bool, n: int)
    requires
        0 <= n <= spans.len(),
    ensures
        places_where(spans, pred, n).len() <= n,
        forall|i: int|
            0 <= i < places_where(spans, pred, n).len() ==> 0 <= #[trigger] places_where(
                spans,
                pred,
                n,
            )[i] < n && pred(spans[places_where(spans, pred, n)[i]]),
    decreases n,
{
    if n > 0 {
        lemma_places_where(spans, pred, n - 1);
    }
}

proof fn lemma_by_span_id(spans: Seq<SpanView>, places: Seq<int>)
    ensures
        by_span_id(spans, places).len() == places.len(),
        forall|i: int|
            0 <= i < places.len() ==> places.contains(#[trigger] by_span_id(spans, places)[i]),
{
    let keys = places.map_values(|p: int| order::rank_of(0, spans[p].span_id@));
    let turned = order::order_of(keys);
    order::order_of_is_stable(keys);
    assert forall|i: int| 0 <= i < places.len() implies places.contains(
        #[trigger] by_span_id(spans, places)[i],
    ) by {
        assert(0 <= turned[i] < keys.len());
        assert(by_span_id(spans, places)[i] == places[turned[i]]);
    }
}

proof fn lemma_children(spans: Seq<SpanView>, place: int)
    ensures
        children_of(spans, place).len() <= spans.len(),
        forall|i: int|
            0 <= i < children_of(spans, place).len() ==> 0 <= #[trigger] children_of(
                spans,
                place,
            )[i] < spans.len() && is_child(
                spans[children_of(spans, place)[i]],
                spans[place].span_id@,
            ),
{
    let pred = |span: SpanView| is_child(span, spans[place].span_id@);
    lemma_places_where(spans, pred, spans.len() as int);
    let places = places_where(spans, pred, spans.len() as int);
    lemma_by_span_id(spans, places);
    assert forall|i: int| 0 <= i < children_of(spans, place).len() implies 0 <= #[trigger] children_of(
        spans,
        place,
    )[i] < spans.len() && is_child(
        spans[children_of(spans, place)[i]],
        spans[place].span_id@,
    ) by {
        let child = children_of(spans, place)[i];
        assert(places.contains(child));
        let k = choose|k: int| 0 <= k < places.len() && places[k] == child;
        assert(pred(spans[places[k]]));
    }
}

proof fn lemma_roots(spans: Seq<SpanView>)
    ensures
        forall|i: int|
            0 <= i < roots_of(spans).len() ==> 0 <= #[trigger] roots_of(spans)[i] < spans.len(),
{
    let pred = |span: SpanView| is_root(spans, span);
    lemma_places_where(spans, pred, spans.len() as int);
    let places = places_where(spans, pred, spans.len() as int);
    lemma_by_span_id(spans, places);
    assert forall|i: int| 0 <= i < roots_of(spans).len() implies 0 <= #[trigger] roots_of(spans)[i]
        < spans.len() by {
        assert(places.contains(roots_of(spans)[i]));
        let k = choose|k: int| 0 <= k < places.len() && places[k] == roots_of(spans)[i];
        assert(pred(spans[places[k]]));
    }
}

fn knows_span(spans: &Vec<SpanView>, id: &str) -> (r: bool)
    ensures
        r == has_span(spans@, id@),
{
    let mut i: usize = 0;
    while i < spans.len()
        invariant
            i <= spans@.len(),
            forall|j: int| 0 <= j < i ==> (#[trigger] spans@[j]).span_id@ != id@,
        decreases spans@.len() - i,
    {
        if same_text(spans[i].span_id.as_str(), id) {
            assert(spans@[i as int].span_id@ == id@);
            return true;
        }
        i = i + 1;
    }
    false
}

fn has_lost_parent(spans: &Vec<SpanView>, span: &SpanView) -> (r: bool)
    ensures
        r == is_orphan(spans@, *span),
{
    match &span.parent_span_id {
        Some(parent) => !knows_span(spans, parent.as_str()),
        None => false,
    }
}

/// The places of an exec list as mathematical integers.
spec fn ints(places: Seq<usize>) -> Seq<int> {
    order::positions(places)
}

fn order_places(spans: &Vec<SpanView>, places: &Vec<usize>) -> (r: Vec<usize>)
    requires
        forall|i: int| 0 <= i < places@.len() ==> (#[trigger] places@[i]) < spans@.len(),
    ensures
        ints(r@) == by_span_id(spans@, ints(places@)),
{
    let mut keys: Vec<SortKey> = Vec::new();
    let ghost key = |p: int| order::rank_of(0, spans@[p].span_id@);
    let mut i: usize = 0;
    while i < places.len()
        invariant
            i <= places@.len(),
            forall|j: int| 0 <= j < places@.len() ==> (#[trigger] places@[j]) < spans@.len(),
            key == (|p: int| order::rank_of(0, spans@[p].span_id@)),
            keys@.len() == i,
            forall|j: int| 0 <= j < i ==> (#[trigger] keys@[j])@ == key(places@[j] as int),
        decreases places@.len() - i,
    {
        keys.push(
            SortKey { rank: 0, first: spans[places[i]].span_id.clone(), second: String::new() },
        );
        assert(keys@[i as int]@ == key(places@[i as int] as int));
        i = i + 1;
    }
    assert(order::ranks(keys@) =~= ints(places@).map_values(key));
    let turned = stable_order(&keys);
    let mut out: Vec<usize> = Vec::new();
    let mut i: usize = 0;
    while i < turned.len()
        invariant
            i <= turned@.len(),
            out@.len() == i,
            turned@.len() == places@.len(),
            forall|j: int|
                0 <= j < turned@.len() ==> 0 <= #[trigger] order::positions(turned@)[j]
                    < places@.len(),
            forall|j: int|
                0 <= j < i ==> #[trigger] out@[j] == places@[order::positions(turned@)[j]],
        decreases turned@.len() - i,
    {
        assert(order::positions(turned@)[i as int] == turned@[i as int]);
        out.push(places[turned[i]]);
        i = i + 1;
    }
    assert(ints(out@) =~= by_span_id(spans@, ints(places@)));
    out
}

fn root_places(spans: &Vec<SpanView>) -> (r: Vec<usize>)
    ensures
        ints(r@) == roots_of(spans@),
{
    let ghost pred = |span: SpanView| is_root(spans@, span);
    let mut places: Vec<usize> = Vec::new();
    let mut i: usize = 0;
    assert(ints(places@) =~= places_where(spans@, pred, 0));
    while i < spans.len()
        invariant
            i <= spans@.len(),
            pred == (|span: SpanView| is_root(spans@, span)),
            ints(places@) == places_where(spans@, pred, i as int),
            forall|j: int| 0 <= j < places@.len() ==> (#[trigger] places@[j]) < spans@.len(),
        decreases spans@.len() - i,
    {
        let ghost before = places@;
        if spans[i].parent_span_id.is_none() || has_lost_parent(spans, &spans[i]) {
            places.push(i);
            assert(ints(places@) =~= ints(before).push(i as int));
        }
        i = i + 1;
    }
    order_places(spans, &places)
}

fn child_places(spans: &Vec<SpanView>, place: usize) -> (r: Vec<usize>)
    requires
        place < spans@.len(),
    ensures
        ints(r@) == children_of(spans@, place as int),
{
    let ghost pred = |span: SpanView| is_child(span, spans@[place as int].span_id@);
    let mut places: Vec<usize> = Vec::new();
    let mut i: usize = 0;
    assert(ints(places@) =~= places_where(spans@, pred, 0));
    while i < spans.len()
        invariant
            i <= spans@.len(),
            place < spans@.len(),
            pred == (|span: SpanView| is_child(span, spans@[place as int].span_id@)),
            ints(places@) == places_where(spans@, pred, i as int),
            forall|j: int| 0 <= j < places@.len() ==> (#[trigger] places@[j]) < spans@.len(),
        decreases spans@.len() - i,
    {
        let ghost before = places@;
        let child = match &spans[i].parent_span_id {
            Some(parent) => same_text(parent.as_str(), spans[place].span_id.as_str()),
            None => false,
        };
        if child {
            places.push(i);
            assert(ints(places@) =~= ints(before).push(i as int));
        }
        i = i + 1;
    }
    order_places(spans, &places)
}

// ---------------------------------------------------------------------------
// The walk
// ---------------------------------------------------------------------------

/// A node that is still to do.
struct Pending {
    place: usize,
    depth: usize,
}

/// The nodes still to do, the next one last.
spec fn todo_of(stack: Seq<Pending>) -> Seq<Node> {
    Seq::new(
        stack.len(),
        |i: int|
            Node {
                place: stack[stack.len() - 1 - i].place as int,
                depth: stack[stack.len() - 1 - i].depth as nat,
            },
    )
}

/// The stack with the places put on top, the first one last.
fn stack_places(stack: &mut Vec<Pending>, places: &Vec<usize>, depth: usize)
    ensures
        todo_of(final(stack)@) == at_depth(ints(places@), depth as nat) + todo_of(old(stack)@),
        final(stack)@.len() == old(stack)@.len() + places@.len(),
        forall|i: int|
            old(stack)@.len() <= i < final(stack)@.len() ==> (#[trigger] final(stack)@[i]).depth
                == depth && places@.contains(final(stack)@[i].place),
        forall|i: int|
            0 <= i < old(stack)@.len() ==> #[trigger] final(stack)@[i] == old(stack)@[i],
{
    let ghost start = stack@;
    let mut left: usize = places.len();
    while left > 0
        invariant
            left <= places@.len(),
            stack@.len() == start.len() + places@.len() - left,
            forall|i: int| 0 <= i < start.len() ==> #[trigger] stack@[i] == start[i],
            forall|i: int|
                start.len() <= i < stack@.len() ==> (#[trigger] stack@[i]).depth == depth
                    && stack@[i].place == places@[places@.len() - 1 - (i - start.len())],
        decreases left,
    {
        left = left - 1;
        stack.push(Pending { place: places[left], depth });
    }
    assert(todo_of(stack@) =~= at_depth(ints(places@), depth as nat) + todo_of(start));
}

pub fn span_tree_rows(trace: &TraceView) -> (r: Vec<SpanTreeRow>)
    ensures
        rows_of(trace.spans@, tree_of(trace.spans@), r@),
{
    let spans = &trace.spans;
    let count: usize = spans.len();
    let mut seen: Vec<bool> = Vec::new();
    let mut all: Vec<usize> = Vec::new();
    while seen.len() < count
        invariant
            seen@.len() <= count,
            seen@ == Seq::new(seen@.len(), |i: int| false),
            all@.len() == seen@.len(),
            forall|i: int| 0 <= i < all@.len() ==> #[trigger] all@[i] == i,
        decreases count - seen@.len(),
    {
        all.push(seen.len());
        seen.push(false);
        assert(seen@ =~= Seq::new(seen@.len(), |i: int| false));
    }
    let roots = root_places(spans);
    let mut stack: Vec<Pending> = Vec::new();
    stack_places(&mut stack, &all, 0);
    proof {
        assert(todo_of(stack@) =~= at_depth(Seq::new(spans@.len(), |i: int| i), 0));
        assert forall|i: int| 0 <= i < stack@.len() implies (#[trigger] stack@[i]).depth == 0
            && stack@[i].place < spans@.len() by {}
    }
    stack_places(&mut stack, &roots, 0);
    proof {
        assert(todo_of(stack@) =~= starts_of(spans@));
        lemma_roots(spans@);
        assert forall|i: int| 0 <= i < stack@.len() implies (#[trigger] stack@[i]).depth == 0
            && stack@[i].place < spans@.len() by {
            if i >= all@.len() {
                assert(roots@.contains(stack@[i].place));
                let k = choose|k: int| 0 <= k < roots@.len() && roots@[k] == stack@[i].place;
                assert(ints(roots@)[k] == roots_of(spans@)[k]);
            }
        }
        lemma_all_unseen(seen@);
    }
    let mut rows: Vec<SpanTreeRow> = Vec::new();
    let ghost mut done: Seq<Node> = seq![];
    assert(done + walk(spans@, todo_of(stack@), seen@) =~= tree_of(spans@));
    while stack.len() > 0
        invariant
            count == spans@.len(),
            spans@ == trace.spans@,
            seen@.len() == count,
            done + walk(spans@, todo_of(stack@), seen@) == tree_of(spans@),
            rows_of(spans@, done, rows@),
            done.len() + unseen(seen@) == count,
            forall|i: int|
                0 <= i < stack@.len() ==> (#[trigger] stack@[i]).place < count && stack@[i].depth
                    <= done.len(),
        decreases unseen(seen@), stack@.len(),
    {
        let ghost todo = todo_of(stack@);
        let ghost stacked = stack@;
        let node = match stack.pop() {
            Some(node) => node,
            None => {
                return rows;
            },
        };
        let ghost head = Node { place: node.place as int, depth: node.depth as nat };
        proof {
            assert(todo[0] == head);
            assert(stacked[stacked.len() - 1] == node);
            assert(todo.drop_first() =~= todo_of(stack@));
        }
        if !seen[node.place] {
            proof {
                lemma_unseen_update(seen@, node.place as int);
                lemma_children(spans@, node.place as int);
            }
            let children = child_places(spans, node.place);
            rows.push(
                SpanTreeRow {
                    span: spans[node.place].clone(),
                    depth: node.depth,
                    child_count: children.len(),
                    orphaned_parent: has_lost_parent(spans, &spans[node.place]),
                },
            );
            seen.set(node.place, true);
            let ghost rest = stack@;
            stack_places(&mut stack, &children, node.depth + 1);
            proof {
                let walked = walk(spans@, todo_of(stack@), seen@);
                assert(done + (seq![head] + walked) =~= done.push(head) + walked);
                assert(ints(children@) == children_of(spans@, node.place as int));
                assert forall|i: int| 0 <= i < stack@.len() implies (#[trigger] stack@[i]).place
                    < count && stack@[i].depth <= done.len() + 1 by {
                    if i < rest.len() {
                        assert(stack@[i] == rest[i]);
                        assert(rest[i] == stacked[i]);
                    } else {
                        assert(children@.contains(stack@[i].place));
                        let k = choose|k: int|
                            0 <= k < children@.len() && children@[k] == stack@[i].place;
                        assert(ints(children@)[k] == children_of(spans@, node.place as int)[k]);
                    }
                }
                assert(row_of(spans@, head, rows@[rows@.len() - 1]));
                done = done.push(head);
            }
        } else {
            assert forall|i: int| 0 <= i < stack@.len() implies (#[trigger] stack@[i]).place < count
                && stack@[i].depth <= done.len() by {
                assert(stack@[i] == stacked[i]);
            }
        }
    }
    assert(todo_of(stack@) =~= seq![]);
    assert(done + seq![] =~= done);
    rows
}

proof fn lemma_all_unseen(seen: Seq<bool>)
    requires
        forall|i: int| 0 <= i < seen.len() ==> !#[trigger] seen[i],
    ensures
        unseen(seen) == seen.len(),
    decreases seen.len(),
{
    if seen.len() > 0 {
        lemma_all_unseen(seen.drop_last());
    }
}

// ---------------------------------------------------------------------------
// Laws
// ---------------------------------------------------------------------------

proof fn lemma_walk_places(spans: Seq<SpanView>, todo: Seq<Node>, seen: Seq<bool>)
    ensures
        forall|i: int|
            0 <= i < walk(spans, todo, seen).len() ==> 0 <= (#[trigger] walk(
                spans,
                todo,
                seen,
            )[i]).place < seen.len() && !seen[walk(spans, todo, seen)[i].place],
        forall|i: int, j: int|
            0 <= i < j < walk(spans, todo, seen).len() ==> (#[trigger] walk(
                spans,
                todo,
                seen,
            )[i]).place != (#[trigger] walk(spans, todo, seen)[j]).place,
        forall|k: int|
            0 <= k < todo.len() && 0 <= (#[trigger] todo[k]).place < seen.len()
                && !seen[todo[k].place] ==> shown(walk(spans, todo, seen), todo[k].place),
    decreases unseen(seen), todo.len(),
{
    if todo.len() > 0 {
        let nodes = walk(spans, todo, seen);
        let node = todo[0];
        let rest = todo.drop_first();
        if 0 <= node.place < seen.len() && !seen[node.place] {
            lemma_unseen_update(seen, node.place);
            let below = at_depth(children_of(spans, node.place), node.depth + 1);
            let then = below + rest;
            let marked = seen.update(node.place, true);
            lemma_walk_places(spans, then, marked);
            let tail = walk(spans, then, marked);
            assert forall|i: int| 0 <= i < nodes.len() implies 0 <= (#[trigger] nodes[i]).place
                < seen.len() && !seen[nodes[i].place] by {
                if i > 0 {
                    assert(nodes[i] == tail[i - 1]);
                }
            }
            assert forall|i: int, j: int| 0 <= i < j < nodes.len() implies (
            #[trigger] nodes[i]).place != (#[trigger] nodes[j]).place by {
                assert(nodes[j] == tail[j - 1]);
                if i > 0 {
                    assert(nodes[i] == tail[i - 1]);
                }
            }
            assert forall|k: int|
                0 <= k < todo.len() && 0 <= (#[trigger] todo[k]).place < seen.len()
                    && !seen[todo[k].place] implies shown(nodes, todo[k].place) by {
                if todo[k].place == node.place {
                    assert(nodes[0].place == todo[k].place);
                } else {
                    let m = below.len() + k - 1;
                    assert(then[m] == todo[k]);
                    assert(shown(tail, then[m].place));
                    let i = choose|i: int|
                        0 <= i < tail.len() && (#[trigger] tail[i]).place == then[m].place;
                    assert(nodes[i + 1] == tail[i]);
                }
            }
        } else {
            lemma_walk_places(spans, rest, seen);
            assert(nodes == walk(spans, rest, seen));
            assert forall|k: int|
                0 <= k < todo.len() && 0 <= (#[trigger] todo[k]).place < seen.len()
                    && !seen[todo[k].place] implies shown(nodes, todo[k].place) by {
                assert(rest[k - 1] == todo[k]);
            }
        }
    }
}

/// The tree shows every span exactly once, also where parents form a cycle or
/// ids repeat.
pub proof fn tree_shows_every_span_once(spans: Seq<SpanView>)
    ensures
        tree_of(spans).len() == spans.len(),
        forall|i: int|
            0 <= i < tree_of(spans).len() ==> 0 <= (#[trigger] tree_of(spans)[i]).place
                < spans.len(),
        forall|i: int, j: int|
            0 <= i < j < tree_of(spans).len() ==> (#[trigger] tree_of(spans)[i]).place != (
            #[trigger] tree_of(spans)[j]).place,
        forall|place: int|
            0 <= place < spans.len() ==> #[trigger] shown(tree_of(spans), place),
{
    let seen = Seq::new(spans.len(), |i: int| false);
    let todo = starts_of(spans);
    let nodes = tree_of(spans);
    lemma_walk_places(spans, todo, seen);
    assert forall|place: int| 0 <= place < spans.len() implies #[trigger] shown(nodes, place) by {
        let k = roots_of(spans).len() + place;
        assert(todo[k].place == place);
    }
    let places = nodes.map_values(|node: Node| node.place);
    assert(places.no_duplicates());
    places.unique_seq_to_set();
    let whole = vstd::set_lib::set_int_range(0, spans.len() as int);
    vstd::set_lib::lemma_int_range(0, spans.len() as int);
    assert(places.to_set() =~= whole) by {
        assert forall|place: int| whole.contains(place) implies places.to_set().contains(place) by {
            assert(shown(nodes, place));
            let i = choose|i: int| 0 <= i < nodes.len() && (#[trigger] nodes[i]).place == place;
            assert(places[i] == place);
        }
    }
}

/// Some node shows the span at a place.
pub open spec fn shown(nodes: Seq<Node>, place: int) -> bool {
    exists|i: int| 0 <= i < nodes.len() && (#[trigger] nodes[i]).place == place
}

/// The node stands right below the span of an earlier node.
pub open spec fn below(spans: Seq<SpanView>, upper: Node, node: Node) -> bool {
    &&& upper.depth + 1 == node.depth
    &&& is_child(spans[node.place], spans[upper.place].span_id@)
}

/// An earlier node shows the parent of the node at `i`.
pub open spec fn has_upper(spans: Seq<SpanView>, nodes: Seq<Node>, i: int) -> bool {
    exists|j: int| 0 <= j < i && below(spans, #[trigger] nodes[j], nodes[i])
}

proof fn lemma_walk_depth(spans: Seq<SpanView>, todo: Seq<Node>, seen: Seq<bool>)
    ensures
        forall|i: int|
            0 <= i < walk(spans, todo, seen).len() ==> todo.contains(
                #[trigger] walk(spans, todo, seen)[i],
            ) || has_upper(spans, walk(spans, todo, seen), i),
    decreases unseen(seen), todo.len(),
{
    if todo.len() > 0 {
        let nodes = walk(spans, todo, seen);
        let node = todo[0];
        let rest = todo.drop_first();
        if 0 <= node.place < seen.len() && !seen[node.place] {
            lemma_unseen_update(seen, node.place);
            let children = children_of(spans, node.place);
            let under = at_depth(children, node.depth + 1);
            let then = under + rest;
            let marked = seen.update(node.place, true);
            lemma_walk_depth(spans, then, marked);
            lemma_children(spans, node.place);
            let tail = walk(spans, then, marked);
            assert forall|i: int| 0 <= i < nodes.len() implies todo.contains(#[trigger] nodes[i])
                || has_upper(spans, nodes, i) by {
                if i == 0 {
                    assert(todo[0] == nodes[0]);
                } else {
                    assert(nodes[i] == tail[i - 1]);
                    if then.contains(tail[i - 1]) {
                        let k = choose|k: int| 0 <= k < then.len() && then[k] == tail[i - 1];
                        if k < under.len() {
                            assert(then[k] == under[k]);
                            assert(under[k].place == children[k]);
                            assert(below(spans, nodes[0], nodes[i]));
                        } else {
                            assert(then[k] == rest[k - under.len()]);
                            assert(todo[k - under.len() + 1] == nodes[i]);
                        }
                    } else {
                        assert(has_upper(spans, tail, i - 1));
                        let j = choose|j: int|
                            0 <= j < i - 1 && below(spans, #[trigger] tail[j], tail[i - 1]);
                        assert(nodes[j + 1] == tail[j]);
                        assert(below(spans, nodes[j + 1], nodes[i]));
                    }
                }
            }
        } else {
            lemma_walk_depth(spans, rest, seen);
            assert(nodes == walk(spans, rest, seen));
            assert forall|i: int| 0 <= i < nodes.len() implies todo.contains(#[trigger] nodes[i])
                || has_upper(spans, nodes, i) by {
                if rest.contains(nodes[i]) {
                    let k = choose|k: int| 0 <= k < rest.len() && rest[k] == nodes[i];
                    assert(todo[k + 1] == nodes[i]);
                }
            }
        }
    }
}

/// A span that is indented stands below its parent: an earlier row, one step
/// less deep, shows the span that it names as its parent.
pub proof fn tree_indents_children(spans: Seq<SpanView>, i: int)
    requires
        0 <= i < tree_of(spans).len(),
        tree_of(spans)[i].depth > 0,
    ensures
        has_upper(spans, tree_of(spans), i),
{
    let seen = Seq::new(spans.len(), |i: int| false);
    lemma_walk_depth(spans, starts_of(spans), seen);
    let nodes = tree_of(spans);
    if starts_of(spans).contains(nodes[i]) {
        let k = choose|k: int| 0 <= k < starts_of(spans).len() && starts_of(spans)[k] == nodes[i];
        assert(starts_of(spans)[k].depth == 0);
    }
}

proof fn lemma_places_complete(
    spans: Seq<SpanView>,
    pred: spec_fn(SpanView) -> bool,
    n: int,
    place: int,
)
    requires
        0 <= place < n <= spans.len(),
        pred(spans[place]),
    ensures
        places_where(spans, pred, n).contains(place),
    decreases n,
{
    let places = places_where(spans, pred, n);
    if place == n - 1 {
        assert(places[places.len() - 1] == place);
    } else {
        lemma_places_complete(spans, pred, n - 1, place);
        let before = places_where(spans, pred, n - 1);
        let k = choose|k: int| 0 <= k < before.len() && before[k] == place;
        assert(places[k] == place);
    }
}

proof fn lemma_by_span_id_complete(spans: Seq<SpanView>, places: Seq<int>, place: int)
    requires
        places.contains(place),
    ensures
        by_span_id(spans, places).contains(place),
{
    let keys = places.map_values(|p: int| order::rank_of(0, spans[p].span_id@));
    let turned = order::order_of(keys);
    order::order_of_is_stable(keys);
    let k = choose|k: int| 0 <= k < places.len() && places[k] == place;
    assert(turned.contains(k));
    let i = choose|i: int| 0 <= i < turned.len() && turned[i] == k;
    assert(by_span_id(spans, places)[i] == place);
}

proof fn lemma_children_complete(spans: Seq<SpanView>, place: int, child: int)
    requires
        0 <= child < spans.len(),
        is_child(spans[child], spans[place].span_id@),
    ensures
        children_of(spans, place).contains(child),
{
    let pred = |span: SpanView| is_child(span, spans[place].span_id@);
    lemma_places_complete(spans, pred, spans.len() as int, child);
    lemma_by_span_id_complete(spans, places_where(spans, pred, spans.len() as int), child);
}

proof fn lemma_roots_are(spans: Seq<SpanView>, place: int)
    ensures
        roots_of(spans).contains(place) <==> 0 <= place < spans.len() && is_root(
            spans,
            spans[place],
        ),
{
    let pred = |span: SpanView| is_root(spans, span);
    let places = places_where(spans, pred, spans.len() as int);
    if 0 <= place < spans.len() && is_root(spans, spans[place]) {
        lemma_places_complete(spans, pred, spans.len() as int, place);
        lemma_by_span_id_complete(spans, places, place);
    }
    if roots_of(spans).contains(place) {
        let i = choose|i: int| 0 <= i < roots_of(spans).len() && roots_of(spans)[i] == place;
        lemma_by_span_id(spans, places);
        assert(places.contains(place));
        lemma_places_where(spans, pred, spans.len() as int);
        let k = choose|k: int| 0 <= k < places.len() && places[k] == place;
        assert(pred(spans[places[k]]));
    }
}

/// The node at `u` shows the parent of a node that may come next: it is one step
/// less deep, and all nodes since stand below it.
spec fn hangs_from(spans: Seq<SpanView>, done: Seq<Node>, node: Node, u: int) -> bool {
    &&& 0 <= u < done.len()
    &&& below(spans, done[u], node)
    &&& forall|k: int| u < k < done.len() ==> (#[trigger] done[k]).depth > done[u].depth
}

/// The node may come next: it is a root, or it hangs from a node.
spec fn fits(spans: Seq<SpanView>, done: Seq<Node>, node: Node) -> bool {
    ||| node.depth == 0 && is_root(spans, spans[node.place])
    ||| exists|u: int| #[trigger] hangs_from(spans, done, node, u)
}

/// What holds all along a walk without cycles, while `near` is what was found
/// but not shown yet.
spec fn walks_well(
    spans: Seq<SpanView>,
    done: Seq<Node>,
    near: Seq<Node>,
    seen: Seq<bool>,
) -> bool {
    &&& seen.len() == spans.len()
    &&& forall|u: int|
        0 <= u < done.len() ==> 0 <= (#[trigger] done[u]).place < spans.len()
            && seen[done[u].place]
    &&& forall|t: int|
        0 <= t < near.len() ==> 0 <= (#[trigger] near[t]).place < spans.len() && fits(
            spans,
            done,
            near[t],
        )
    &&& forall|s: int, t: int|
        0 <= s < t < near.len() ==> (#[trigger] near[s]).depth >= (#[trigger] near[t]).depth
    &&& forall|p: int|
        0 <= p < spans.len() && is_root(spans, #[trigger] spans[p]) ==> seen[p] || listed(near, p)
    &&& forall|p: int, q: int|
        #![trigger spans[p], seen[q]]
        0 <= p < spans.len() && 0 <= q < spans.len() && seen[q] && is_child(
            spans[p],
            spans[q].span_id@,
        ) ==> seen[p] || listed(near, p)
}

/// A node for this place is among those found.
spec fn listed(near: Seq<Node>, p: int) -> bool {
    exists|t: int| 0 <= t < near.len() && (#[trigger] near[t]).place == p
}

/// The parents of the spans form no cycle: each parent is less high.
pub open spec fn no_cycle(spans: Seq<SpanView>, height: spec_fn(int) -> nat) -> bool {
    forall|p: int, q: int|
        0 <= p < spans.len() && 0 <= q < spans.len() && is_parent(spans, q, p) ==> height(q)
            < height(p)
}

/// The span at `q` is the one that the span at `p` names as its parent.
pub open spec fn is_parent(spans: Seq<SpanView>, q: int, p: int) -> bool {
    spans[p].parent_span_id matches Some(parent) && parent@ == spans[q].span_id@
}

proof fn lemma_all_seen(
    spans: Seq<SpanView>,
    height: spec_fn(int) -> nat,
    done: Seq<Node>,
    near: Seq<Node>,
    seen: Seq<bool>,
    p: int,
)
    requires
        walks_well(spans, done, near, seen),
        no_cycle(spans, height),
        near.len() == 0,
        0 <= p < spans.len(),
    ensures
        seen[p],
    decreases height(p),
{
    if !is_root(spans, spans[p]) {
        let parent = spans[p].parent_span_id->0@;
        let q = choose|q: int| 0 <= q < spans.len() && (#[trigger] spans[q]).span_id@ == parent;
        assert(is_parent(spans, q, p));
        lemma_all_seen(spans, height, done, near, seen, q);
        assert(is_child(spans[p], spans[q].span_id@));
    }
}

proof fn lemma_step_keeps(
    spans: Seq<SpanView>,
    done: Seq<Node>,
    near: Seq<Node>,
    seen: Seq<bool>,
)
    requires
        walks_well(spans, done, near, seen),
        near.len() > 0,
    ensures
        !seen[near[0].place] ==> walks_well(
            spans,
            done.push(near[0]),
            at_depth(children_of(spans, near[0].place), near[0].depth + 1) + near.drop_first(),
            seen.update(near[0].place, true),
        ),
        seen[near[0].place] ==> walks_well(spans, done, near.drop_first(), seen),
{
    let head = near[0];
    let rest = near.drop_first();
    assert forall|t: int| 0 <= t < rest.len() implies #[trigger] rest[t] == near[t + 1] by {}
    assert forall|p: int| p != head.place && listed(near, p) implies #[trigger] listed(rest, p) by {
        let t = choose|t: int| 0 <= t < near.len() && (#[trigger] near[t]).place == p;
        assert(rest[t - 1].place == p);
    }
    if !seen[head.place] {
        let children = children_of(spans, head.place);
        let under = at_depth(children, head.depth + 1);
        let next = under + rest;
        let after = done.push(head);
        let marked = seen.update(head.place, true);
        lemma_children(spans, head.place);
        assert forall|u: int| 0 <= u < after.len() implies 0 <= (#[trigger] after[u]).place
            < spans.len() && marked[after[u].place] by {
            if u < done.len() {
                assert(after[u] == done[u]);
            }
        }
        assert forall|t: int| 0 <= t < next.len() implies 0 <= (#[trigger] next[t]).place
            < spans.len() && fits(spans, after, next[t]) by {
            if t < under.len() {
                assert(next[t] == under[t]);
                assert(under[t].place == children[t]);
                assert(hangs_from(spans, after, next[t], done.len() as int));
            } else {
                let old = near[t - under.len() + 1];
                assert(next[t] == rest[t - under.len()]);
                assert(next[t] == old);
                assert(fits(spans, done, old));
                if exists|u: int| #[trigger] hangs_from(spans, done, old, u) {
                    let u = choose|u: int| #[trigger] hangs_from(spans, done, old, u);
                    assert(head.depth >= old.depth);
                    assert forall|k: int| u < k < after.len() implies (#[trigger] after[k]).depth
                        > after[u].depth by {
                        if k < done.len() {
                            assert(after[k] == done[k]);
                        }
                    }
                    assert(hangs_from(spans, after, old, u));
                }
            }
        }
        assert forall|s: int, t: int| 0 <= s < t < next.len() implies (#[trigger] next[s]).depth
            >= (#[trigger] next[t]).depth by {
            if s < under.len() {
                if t >= under.len() {
                    assert(next[t] == rest[t - under.len()]);
                    assert(near[0].depth >= near[t - under.len() + 1].depth);
                }
            } else {
                assert(next[s] == rest[s - under.len()]);
                assert(next[t] == rest[t - under.len()]);
                assert(near[s - under.len() + 1].depth >= near[t - under.len() + 1].depth);
            }
        }
        assert forall|p: int| listed(rest, p) implies #[trigger] listed(next, p) by {
            let t = choose|t: int| 0 <= t < rest.len() && (#[trigger] rest[t]).place == p;
            assert(next[under.len() + t].place == p);
        }
        assert forall|p: int|
            0 <= p < spans.len() && is_root(spans, #[trigger] spans[p]) implies marked[p] || listed(
            next,
            p,
        ) by {
            if p != head.place && !seen[p] {
                assert(listed(near, p));
                assert(listed(rest, p));
            }
        }
        assert forall|p: int, q: int|
            #![trigger spans[p], marked[q]]
            0 <= p < spans.len() && 0 <= q < spans.len() && marked[q] && is_child(
                spans[p],
                spans[q].span_id@,
            ) implies marked[p] || listed(next, p) by {
            if p != head.place && !seen[p] {
                if q == head.place {
                    lemma_children_complete(spans, q, p);
                    let k = choose|k: int| 0 <= k < children.len() && children[k] == p;
                    assert(under[k].place == p);
                    assert(next[k].place == p);
                } else {
                    assert(seen[q]);
                    assert(listed(near, p));
                    assert(listed(rest, p));
                }
            }
        }
    } else {
        assert forall|t: int| 0 <= t < rest.len() implies 0 <= (#[trigger] rest[t]).place
            < spans.len() && fits(spans, done, rest[t]) by {
            assert(rest[t] == near[t + 1]);
        }
        assert forall|p: int|
            0 <= p < spans.len() && is_root(spans, #[trigger] spans[p]) implies seen[p] || listed(
            rest,
            p,
        ) by {
            if !seen[p] {
                assert(listed(near, p));
            }
        }
        assert forall|p: int, q: int|
            #![trigger spans[p], seen[q]]
            0 <= p < spans.len() && 0 <= q < spans.len() && seen[q] && is_child(
                spans[p],
                spans[q].span_id@,
            ) implies seen[p] || listed(rest, p) by {
            if !seen[p] {
                assert(listed(near, p));
            }
        }
    }
}

proof fn lemma_walk_fits(
    spans: Seq<SpanView>,
    height: spec_fn(int) -> nat,
    done: Seq<Node>,
    near: Seq<Node>,
    far: Seq<Node>,
    seen: Seq<bool>,
    j: int,
)
    requires
        walks_well(spans, done, near, seen),
        no_cycle(spans, height),
        forall|t: int| 0 <= t < far.len() ==> 0 <= (#[trigger] far[t]).place < spans.len(),
        done.len() <= j < (done + walk(spans, near + far, seen)).len(),
    ensures
        ({
            let nodes = done + walk(spans, near + far, seen);
            fits(spans, nodes.take(j), nodes[j])
        }),
    decreases unseen(seen), near.len() + far.len(),
{
    let todo = near + far;
    let nodes = done + walk(spans, todo, seen);
    if near.len() == 0 {
        if far.len() > 0 {
            let head = far[0];
            assert(todo[0] == head);
            lemma_all_seen(spans, height, done, near, seen, head.place);
            let later = far.drop_first();
            assert(todo.drop_first() =~= near + later);
            assert forall|t: int| 0 <= t < later.len() implies 0 <= (#[trigger] later[t]).place
                < spans.len() by {
                assert(later[t] == far[t + 1]);
            }
            lemma_walk_fits(spans, height, done, near, later, seen, j);
        }
    } else {
        let head = near[0];
        assert(todo[0] == head);
        let rest = near.drop_first();
        lemma_step_keeps(spans, done, near, seen);
        assert(todo.drop_first() =~= rest + far);
        if !seen[head.place] {
            lemma_unseen_update(seen, head.place);
            let marked = seen.update(head.place, true);
            let under = at_depth(children_of(spans, head.place), head.depth + 1);
            assert(under + (rest + far) =~= (under + rest) + far);
            let tail = walk(spans, (under + rest) + far, marked);
            assert(nodes =~= done.push(head) + tail);
            if j == done.len() {
                assert(nodes.take(j) =~= done);
                assert(fits(spans, done, near[0]));
            } else {
                lemma_walk_fits(spans, height, done.push(head), under + rest, far, marked, j);
            }
        } else {
            lemma_walk_fits(spans, height, done, rest, far, seen, j);
        }
    }
}

proof fn lemma_start_walks_well(spans: Seq<SpanView>)
    ensures
        walks_well(
            spans,
            seq![],
            at_depth(roots_of(spans), 0),
            Seq::new(spans.len(), |i: int| false),
        ),
{
    let seen = Seq::new(spans.len(), |i: int| false);
    let near = at_depth(roots_of(spans), 0);
    assert forall|t: int| 0 <= t < near.len() implies 0 <= (#[trigger] near[t]).place < spans.len()
        && fits(spans, seq![], near[t]) by {
        assert(near[t].place == roots_of(spans)[t]);
        lemma_roots_are(spans, roots_of(spans)[t]);
    }
    assert forall|p: int| 0 <= p < spans.len() && is_root(spans, #[trigger] spans[p]) implies seen[p]
        || listed(near, p) by {
        lemma_roots_are(spans, p);
        let k = choose|k: int| 0 <= k < roots_of(spans).len() && roots_of(spans)[k] == p;
        assert(near[k].place == p);
    }
}

/// Where parents form no cycle, every span stands in the tree where its parent
/// says. A row is not indented exactly where its span names no parent, or one
/// that is not among the spans. Any other row stands below an earlier row that
/// shows its parent, exactly one step deeper, and every row between the two is
/// deeper than the parent, so that only what hangs from the parent stands there.
pub proof fn every_span_hangs_from_its_parent(
    spans: Seq<SpanView>,
    rows: Seq<SpanTreeRow>,
    height: spec_fn(int) -> nat,
    j: int,
) -> (up: int)
    requires
        rows_of(spans, tree_of(spans), rows),
        forall|p: int, q: int|
            0 <= p < spans.len() && 0 <= q < spans.len() && (
            #[trigger] spans[p]).parent_span_id is Some && spans[p].parent_span_id->0@ == (
            #[trigger] spans[q]).span_id@ ==> height(q) < height(p),
        0 <= j < rows.len(),
    ensures
        rows[j].depth == 0 <==> rows[j].span.parent_span_id is None || forall|q: int|
            0 <= q < spans.len() ==> (#[trigger] spans[q]).span_id@
                != rows[j].span.parent_span_id->0@,
        rows[j].depth > 0 ==> {
            &&& 0 <= up < j
            &&& rows[j].span.parent_span_id is Some
            &&& rows[up].span.span_id@ == rows[j].span.parent_span_id->0@
            &&& rows[j].depth == rows[up].depth + 1
            &&& forall|k: int| up < k < j ==> (#[trigger] rows[k]).depth > rows[up].depth
        },
{
    let nodes = tree_of(spans);
    let seen = Seq::new(spans.len(), |i: int| false);
    let near = at_depth(roots_of(spans), 0);
    let far = at_depth(Seq::new(spans.len(), |i: int| i), 0);
    assert(no_cycle(spans, height));
    lemma_start_walks_well(spans);
    assert(Seq::<Node>::empty() + walk(spans, near + far, seen) =~= nodes);
    lemma_walk_fits(spans, height, seq![], near, far, seen, j);
    tree_shows_every_span_once(spans);
    let before = nodes.take(j);
    assert(row_of(spans, nodes[j], rows[j]));
    let span = spans[nodes[j].place];
    if is_root(spans, span) {
        if exists|u: int| #[trigger] hangs_from(spans, before, nodes[j], u) {
            let u = choose|u: int| #[trigger] hangs_from(spans, before, nodes[j], u);
            assert(before[u] == nodes[u]);
            assert(0 <= nodes[u].place < spans.len());
            assert(is_child(span, spans[nodes[u].place].span_id@));
            assert(has_span(spans, span.parent_span_id->0@));
        }
        0
    } else {
        let u = choose|u: int| #[trigger] hangs_from(spans, before, nodes[j], u);
        assert(before[u] == nodes[u]);
        assert(row_of(spans, nodes[u], rows[u]));
        assert forall|k: int| u < k < j implies (#[trigger] rows[k]).depth > rows[u].depth by {
            assert(before[k] == nodes[k]);
            assert(row_of(spans, nodes[k], rows[k]));
        }
        u
    }
}

proof fn lemma_places_count(spans: Seq<SpanView>, pred: spec_fn(SpanView) -> bool, n: int)
    requires
        0 <= n <= spans.len(),
    ensures
        places_where(spans, pred, n).len() == spans.take(n).filter(pred).len(),
    decreases n,
{
    reveal(Seq::filter);
    if n > 0 {
        lemma_places_count(spans, pred, n - 1);
        assert(spans.take(n).drop_last() =~= spans.take(n - 1));
        assert(spans.take(n).last() == spans[n - 1]);
    }
}

/// A row counts the spans that name it as their parent, and is marked as
/// orphaned exactly where its span names a parent that is not there.
pub proof fn rows_count_children_and_mark_orphans(
    spans: Seq<SpanView>,
    rows: Seq<SpanTreeRow>,
    j: int,
)
    requires
        rows_of(spans, tree_of(spans), rows),
        0 <= j < rows.len(),
    ensures
        rows.len() == spans.len(),
        spans.contains(rows[j].span),
        rows[j].child_count == spans.filter(
            |span: SpanView|
                span.parent_span_id is Some && span.parent_span_id->0@ == rows[j].span.span_id@,
        ).len(),
        rows[j].orphaned_parent <==> rows[j].span.parent_span_id is Some && forall|q: int|
            0 <= q < spans.len() ==> (#[trigger] spans[q]).span_id@
                != rows[j].span.parent_span_id->0@,
{
    tree_shows_every_span_once(spans);
    let nodes = tree_of(spans);
    assert(row_of(spans, nodes[j], rows[j]));
    let place = nodes[j].place;
    assert(spans[place] == rows[j].span);
    let pred = |span: SpanView| is_child(span, spans[place].span_id@);
    let named = |span: SpanView|
        span.parent_span_id is Some && span.parent_span_id->0@ == rows[j].span.span_id@;
    assert(pred =~= named);
    lemma_places_count(spans, pred, spans.len() as int);
    assert(spans.take(spans.len() as int) =~= spans);
    lemma_by_span_id(spans, places_where(spans, pred, spans.len() as int));
}

/// The rows are the spans, each once: where they are told apart by their ids,
/// no two rows show the same span and every span has a row.
pub proof fn rows_are_the_spans(spans: Seq<SpanView>, rows: Seq<SpanTreeRow>, p: int) -> (row: int)
    requires
        rows_of(spans, tree_of(spans), rows),
        0 <= p < spans.len(),
    ensures
        0 <= row < rows.len(),
        rows[row].span == spans[p],
        rows.len() == spans.len(),
        (forall|a: int, b: int|
            0 <= a < b < spans.len() ==> (#[trigger] spans[a]).span_id@ != (
            #[trigger] spans[b]).span_id@) ==> forall|a: int, b: int|
            0 <= a < b < rows.len() ==> (#[trigger] rows[a]).span.span_id@ != (
            #[trigger] rows[b]).span.span_id@,
{
    tree_shows_every_span_once(spans);
    let nodes = tree_of(spans);
    assert(shown(nodes, p));
    let row = choose|i: int| 0 <= i < nodes.len() && (#[trigger] nodes[i]).place == p;
    assert(row_of(spans, nodes[row], rows[row]));
    assert forall|a: int| 0 <= a < rows.len() implies (#[trigger] rows[a]).span
        == spans[nodes[a].place] by {
        assert(row_of(spans, nodes[a], rows[a]));
    }
    assert forall|a: int, b: int| 0 <= a < b < rows.len() implies nodes[a].place != nodes[b].place
        && (#[trigger] rows[a]).span == spans[nodes[a].place] && (#[trigger] rows[b]).span
        == spans[nodes[b].place] by {}
    row
}

/// The spans at two places are siblings: both stand at the top, or both name
/// the same parent, which is there.
spec fn siblings(spans: Seq<SpanView>, p: int, q: int) -> bool {
    ||| is_root(spans, spans[p]) && is_root(spans, spans[q])
    ||| {
        &&& !is_root(spans, spans[p]) && !is_root(spans, spans[q])
        &&& spans[p].parent_span_id->0@ == spans[q].parent_span_id->0@
    }
}

/// The span at `p` may stand before the span at `q`.
spec fn may_precede(spans: Seq<SpanView>, p: int, q: int) -> bool {
    siblings(spans, p, q) ==> !text::text_lt(spans[q].span_id@, spans[p].span_id@)
}

/// No two spans have the same id.
spec fn ids_differ(spans: Seq<SpanView>) -> bool {
    forall|a: int, b: int|
        0 <= a < spans.len() && 0 <= b < spans.len() && (#[trigger] spans[a]).span_id@ == (
        #[trigger] spans[b]).span_id@ ==> a == b
}

/// A node for the parent of the span at `p` was shown.
spec fn parent_done(spans: Seq<SpanView>, done: Seq<Node>, p: int) -> bool {
    exists|u: int|
        0 <= u < done.len() && is_child(spans[p], spans[(#[trigger] done[u]).place].span_id@)
}

/// Siblings were shown, and were found, in the order of their ids.
spec fn walks_in_order(spans: Seq<SpanView>, done: Seq<Node>, near: Seq<Node>) -> bool {
    &&& forall|a: int|
        0 <= a < done.len() && !is_root(spans, spans[(#[trigger] done[a]).place]) ==> parent_done(
            spans,
            done,
            done[a].place,
        )
    &&& forall|a: int, b: int|
        0 <= a < b < done.len() ==> may_precede(
            spans,
            (#[trigger] done[a]).place,
            (#[trigger] done[b]).place,
        )
    &&& forall|a: int, t: int|
        0 <= a < done.len() && 0 <= t < near.len() ==> may_precede(
            spans,
            (#[trigger] done[a]).place,
            (#[trigger] near[t]).place,
        )
    &&& forall|s: int, t: int|
        0 <= s < t < near.len() ==> may_precede(
            spans,
            (#[trigger] near[s]).place,
            (#[trigger] near[t]).place,
        )
}

proof fn lemma_sorted_by_id(spans: Seq<SpanView>, places: Seq<int>, i: int, j: int)
    requires
        0 <= i < j < places.len(),
    ensures
        !text::text_lt(
            spans[by_span_id(spans, places)[j]].span_id@,
            spans[by_span_id(spans, places)[i]].span_id@,
        ),
{
    let keys = places.map_values(|p: int| order::rank_of(0, spans[p].span_id@));
    let turned = order::order_of(keys);
    order::order_of_is_stable(keys);
    assert(order::comes_before(keys, turned[i], turned[j]));
    order::lemma_lt_total(keys[turned[i]], keys[turned[j]]);
    let a = spans[by_span_id(spans, places)[i]].span_id@;
    let b = spans[by_span_id(spans, places)[j]].span_id@;
    assert(keys[turned[i]] == order::rank_of(0, a));
    assert(keys[turned[j]] == order::rank_of(0, b));
    if text::text_lt(b, a) {
        assert(keys[turned[j]].lt(keys[turned[i]]));
    }
}

proof fn lemma_stranger(
    spans: Seq<SpanView>,
    done: Seq<Node>,
    seen: Seq<bool>,
    head: int,
    p: int,
)
    requires
        ids_differ(spans),
        seen.len() == spans.len(),
        forall|u: int|
            0 <= u < done.len() ==> 0 <= (#[trigger] done[u]).place < spans.len()
                && seen[done[u].place],
        0 <= head < spans.len(),
        !seen[head],
        parent_done(spans, done, p),
    ensures
        !is_child(spans[p], spans[head].span_id@),
{
    let u = choose|u: int|
        0 <= u < done.len() && is_child(spans[p], spans[(#[trigger] done[u]).place].span_id@);
    if is_child(spans[p], spans[head].span_id@) {
        assert(spans[done[u].place].span_id@ == spans[head].span_id@);
        assert(done[u].place == head);
    }
}

proof fn lemma_step_in_order(
    spans: Seq<SpanView>,
    height: spec_fn(int) -> nat,
    done: Seq<Node>,
    near: Seq<Node>,
    seen: Seq<bool>,
)
    requires
        walks_well(spans, done, near, seen),
        walks_in_order(spans, done, near),
        no_cycle(spans, height),
        ids_differ(spans),
        near.len() > 0,
        !seen[near[0].place],
    ensures
        walks_in_order(
            spans,
            done.push(near[0]),
            at_depth(children_of(spans, near[0].place), near[0].depth + 1) + near.drop_first(),
        ),
{
    let head = near[0];
    let h = head.place;
    let rest = near.drop_first();
    let children = children_of(spans, h);
    let under = at_depth(children, head.depth + 1);
    let next = under + rest;
    let after = done.push(head);
    lemma_children(spans, h);
    let pred = |span: SpanView| is_child(span, spans[h].span_id@);
    let places = places_where(spans, pred, spans.len() as int);
    lemma_by_span_id(spans, places);
    assert(!is_child(spans[h], spans[h].span_id@)) by {
        if is_child(spans[h], spans[h].span_id@) {
            assert(is_parent(spans, h, h));
        }
    }
    assert forall|k: int| 0 <= k < under.len() implies (#[trigger] under[k]).place == children[k]
        && !is_root(spans, spans[children[k]]) && is_child(
        spans[children[k]],
        spans[h].span_id@,
    ) by {
        let child = children[k];
        assert(is_child(spans[child], spans[h].span_id@));
        assert(has_span(spans, spans[child].parent_span_id->0@));
    }
    assert forall|t: int| 0 <= t < near.len() && !is_root(spans, spans[near[t].place]) implies
        parent_done(spans, done, (#[trigger] near[t]).place) by {
        assert(fits(spans, done, near[t]));
        let u = choose|u: int| #[trigger] hangs_from(spans, done, near[t], u);
        assert(is_child(spans[near[t].place], spans[done[u].place].span_id@));
    }
    assert forall|a: int|
        0 <= a < after.len() && !is_root(spans, spans[(#[trigger] after[a]).place]) implies
        parent_done(spans, after, after[a].place) by {
        if a < done.len() {
            assert(after[a] == done[a]);
        } else {
            assert(near[0] == head);
        }
        assert(parent_done(spans, done, after[a].place));
        let u = choose|u: int|
            0 <= u < done.len() && is_child(
                spans[after[a].place],
                spans[(#[trigger] done[u]).place].span_id@,
            );
        assert(after[u] == done[u]);
    }
    assert forall|a: int, b: int| 0 <= a < b < after.len() implies may_precede(
        spans,
        (#[trigger] after[a]).place,
        (#[trigger] after[b]).place,
    ) by {
        assert(after[a] == done[a]);
        if b < done.len() {
            assert(after[b] == done[b]);
        } else {
            assert(may_precede(spans, done[a].place, near[0].place));
        }
    }
    assert forall|a: int, t: int| 0 <= a < after.len() && 0 <= t < next.len() implies may_precede(
        spans,
        (#[trigger] after[a]).place,
        (#[trigger] next[t]).place,
    ) by {
        if t < under.len() {
            assert(next[t] == under[t]);
            if a < done.len() {
                assert(after[a] == done[a]);
                if !is_root(spans, spans[done[a].place]) {
                    lemma_stranger(spans, done, seen, h, done[a].place);
                }
            }
        } else {
            assert(next[t] == rest[t - under.len()]);
            assert(next[t] == near[t - under.len() + 1]);
            if a < done.len() {
                assert(after[a] == done[a]);
            } else {
                assert(may_precede(spans, near[0].place, near[t - under.len() + 1].place));
            }
        }
    }
    assert forall|s: int, t: int| 0 <= s < t < next.len() implies may_precede(
        spans,
        (#[trigger] next[s]).place,
        (#[trigger] next[t]).place,
    ) by {
        if t < under.len() {
            assert(next[s] == under[s] && next[t] == under[t]);
            lemma_sorted_by_id(spans, places, s, t);
        } else {
            let old = near[t - under.len() + 1];
            assert(next[t] == rest[t - under.len()]);
            assert(next[t] == old);
            if s < under.len() {
                assert(next[s] == under[s]);
                if !is_root(spans, spans[old.place]) {
                    lemma_stranger(spans, done, seen, h, old.place);
                }
            } else {
                assert(next[s] == rest[s - under.len()]);
                assert(may_precede(spans, near[s - under.len() + 1].place, old.place));
            }
        }
    }
}

proof fn lemma_walk_in_order(
    spans: Seq<SpanView>,
    height: spec_fn(int) -> nat,
    done: Seq<Node>,
    near: Seq<Node>,
    far: Seq<Node>,
    seen: Seq<bool>,
)
    requires
        walks_well(spans, done, near, seen),
        walks_in_order(spans, done, near),
        no_cycle(spans, height),
        ids_differ(spans),
        forall|t: int| 0 <= t < far.len() ==> 0 <= (#[trigger] far[t]).place < spans.len(),
    ensures
        walks_in_order(spans, done + walk(spans, near + far, seen), seq![]),
    decreases unseen(seen), near.len() + far.len(),
{
    let todo = near + far;
    let nodes = done + walk(spans, todo, seen);
    if near.len() == 0 {
        if far.len() > 0 {
            let head = far[0];
            assert(todo[0] == head);
            lemma_all_seen(spans, height, done, near, seen, head.place);
            let later = far.drop_first();
            assert(todo.drop_first() =~= near + later);
            assert forall|t: int| 0 <= t < later.len() implies 0 <= (#[trigger] later[t]).place
                < spans.len() by {
                assert(later[t] == far[t + 1]);
            }
            lemma_walk_in_order(spans, height, done, near, later, seen);
        } else {
            assert(nodes =~= done);
        }
    } else {
        let head = near[0];
        assert(todo[0] == head);
        let rest = near.drop_first();
        lemma_step_keeps(spans, done, near, seen);
        assert(todo.drop_first() =~= rest + far);
        if !seen[head.place] {
            lemma_step_in_order(spans, height, done, near, seen);
            lemma_unseen_update(seen, head.place);
            let marked = seen.update(head.place, true);
            let under = at_depth(children_of(spans, head.place), head.depth + 1);
            assert(under + (rest + far) =~= (under + rest) + far);
            let tail = walk(spans, (under + rest) + far, marked);
            assert(nodes =~= done.push(head) + tail);
            lemma_walk_in_order(spans, height, done.push(head), under + rest, far, marked);
        } else {
            assert forall|t: int| 0 <= t < rest.len() implies #[trigger] rest[t]
                == near[t + 1] by {}
            lemma_walk_in_order(spans, height, done, rest, far, seen);
        }
    }
}

/// Siblings stand in the order of their ids: of two rows that name the same
/// parent, or that both stand at the top, the earlier one has no greater id.
pub proof fn siblings_stand_in_order(
    spans: Seq<SpanView>,
    rows: Seq<SpanTreeRow>,
    height: spec_fn(int) -> nat,
    i: int,
    j: int,
)
    requires
        rows_of(spans, tree_of(spans), rows),
        forall|p: int, q: int|
            0 <= p < spans.len() && 0 <= q < spans.len() && (
            #[trigger] spans[p]).parent_span_id is Some && spans[p].parent_span_id->0@ == (
            #[trigger] spans[q]).span_id@ ==> height(q) < height(p),
        forall|p: int, q: int|
            0 <= p < q < spans.len() ==> (#[trigger] spans[p]).span_id@ != (
            #[trigger] spans[q]).span_id@,
        0 <= i < j < rows.len(),
        (rows[i].depth == 0 && rows[j].depth == 0) || (rows[i].depth > 0 && rows[j].depth > 0
            && rows[i].span.parent_span_id is Some && rows[j].span.parent_span_id is Some
            && rows[i].span.parent_span_id->0@ == rows[j].span.parent_span_id->0@),
    ensures
        !text::text_lt(rows[j].span.span_id@, rows[i].span.span_id@),
{
    let nodes = tree_of(spans);
    let seen = Seq::new(spans.len(), |i: int| false);
    let roots = roots_of(spans);
    let near = at_depth(roots, 0);
    let far = at_depth(Seq::new(spans.len(), |i: int| i), 0);
    assert(no_cycle(spans, height));
    assert(ids_differ(spans)) by {
        assert forall|a: int, b: int|
            0 <= a < spans.len() && 0 <= b < spans.len() && (#[trigger] spans[a]).span_id@ == (
            #[trigger] spans[b]).span_id@ implies a == b by {
            if a < b {
                assert(spans[a].span_id@ != spans[b].span_id@);
            } else if b < a {
                assert(spans[b].span_id@ != spans[a].span_id@);
            }
        }
    }
    lemma_start_walks_well(spans);
    let places = places_where(spans, |span: SpanView| is_root(spans, span), spans.len() as int);
    lemma_by_span_id(spans, places);
    assert forall|s: int, t: int| 0 <= s < t < near.len() implies may_precede(
        spans,
        (#[trigger] near[s]).place,
        (#[trigger] near[t]).place,
    ) by {
        lemma_sorted_by_id(spans, places, s, t);
        assert(near[s].place == roots[s] && near[t].place == roots[t]);
    }
    assert(walks_in_order(spans, seq![], near));
    lemma_walk_in_order(spans, height, seq![], near, far, seen);
    assert(Seq::<Node>::empty() + walk(spans, near + far, seen) =~= nodes);
    assert(row_of(spans, nodes[i], rows[i]));
    assert(row_of(spans, nodes[j], rows[j]));
    let a = every_span_hangs_from_its_parent(spans, rows, height, i);
    let b = every_span_hangs_from_its_parent(spans, rows, height, j);
    assert(may_precede(spans, nodes[i].place, nodes[j].place));
    lemma_is_root_means(spans, rows[i].span);
    lemma_is_root_means(spans, rows[j].span);
}

proof fn lemma_is_root_means(spans: Seq<SpanView>, span: SpanView)
    ensures
        is_root(spans, span) <==> span.parent_span_id is None || forall|q: int|
            0 <= q < spans.len() ==> (#[trigger] spans[q]).span_id@ != span.parent_span_id->0@,
{
}

} // verus!
