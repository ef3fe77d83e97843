//! Spans grouped into traces, and traces picked by a query.

use vstd::prelude::*;

use crate::number;
use crate::number::decimal_signed;
use crate::observe::{SpanStatus, SpanView};
use crate::order;
use crate::order::{stable_order, SortKey};
use crate::text;
use crate::text::{ascii_lowercase, contains, same_text, split_words, starts_with};

verus! {

#[derive(Debug, PartialEq, Eq)]
pub struct TraceView {
    pub trace_id: String,
    pub span_count: usize,
    pub root_name: String,
    pub duration_us: u64,
    pub has_pit_fanout: bool,
    pub spans: Vec<SpanView>,
}

/// The mathematical value of a trace.
#[verifier::ext_equal]
pub struct TraceModel {
    pub trace_id: String,
    pub span_count: usize,
    pub root_name: String,
    pub duration_us: u64,
    pub has_pit_fanout: bool,
    pub spans: Seq<SpanView>,
}

impl View for TraceView {
    type V = TraceModel;

    open spec fn view(&self) -> TraceModel {
        TraceModel {
            trace_id: self.trace_id,
            span_count: self.span_count,
            root_name: self.root_name,
            duration_us: self.duration_us,
            has_pit_fanout: self.has_pit_fanout,
            spans: self.spans@,
        }
    }
}

/// The values of a list of traces.
pub open spec fn models(traces: Seq<TraceView>) -> Seq<TraceModel> {
    traces.map_values(|trace: TraceView| trace@)
}

/// A copy of a list of spans.
pub fn copy_spans(spans: &Vec<SpanView>) -> (r: Vec<SpanView>)
    ensures
        r@ == spans@,
{
    let mut out: Vec<SpanView> = Vec::new();
    let mut i: usize = 0;
    while i < spans.len()
        invariant
            i <= spans@.len(),
            out@ == spans@.take(i as int),
        decreases spans@.len() - i,
    {
        out.push(spans[i].clone());
        i = i + 1;
        assert(out@ =~= spans@.take(i as int));
    }
    assert(spans@.take(i as int) =~= spans@);
    out
}

impl Clone for TraceView {
    fn clone(&self) -> (r: Self)
        ensures
            r@ == self@,
    {
        TraceView {
            trace_id: self.trace_id.clone(),
            span_count: self.span_count,
            root_name: self.root_name.clone(),
            duration_us: self.duration_us,
            has_pit_fanout: self.has_pit_fanout,
            spans: copy_spans(&self.spans),
        }
    }
}

/// A copy of a list of traces.
pub fn copy_traces(traces: &Vec<TraceView>) -> (r: Vec<TraceView>)
    ensures
        models(r@) == models(traces@),
{
    let mut out: Vec<TraceView> = Vec::new();
    let mut i: usize = 0;
    while i < traces.len()
        invariant
            i <= traces@.len(),
            models(out@) == models(traces@).take(i as int),
        decreases traces@.len() - i,
    {
        let ghost before = out@;
        let trace = traces[i].clone();
        out.push(trace);
        assert(models(out@) =~= models(before).push(trace@));
        i = i + 1;
        assert(models(out@) =~= models(traces@).take(i as int));
    }
    assert(models(traces@).take(i as int) =~= models(traces@));
    out
}

// ---------------------------------------------------------------------------
// Grouping
// ---------------------------------------------------------------------------

/// Spans are ordered by trace, then by span.
pub open spec fn span_rank(span: SpanView) -> order::Rank {
    order::Rank { rank: 0, first: span.trace_id@, second: span.span_id@ }
}

/// The spans ordered by trace and span id; equal ones stay as they came.
pub open spec fn sorted_spans(spans: Seq<SpanView>) -> Seq<SpanView> {
    order::picked(spans, order::order_of(spans.map_values(|span: SpanView| span_rank(span))))
}

/// The maximal runs of neighbours with the same trace id.
pub open spec fn runs(spans: Seq<SpanView>) -> Seq<Seq<SpanView>>
    decreases spans.len(),
{
    if spans.len() == 0 {
        seq![]
    } else {
        let before = runs(spans.drop_last());
        let span = spans.last();
        if before.len() > 0 && before.last().last().trace_id@ == span.trace_id@ {
            before.drop_last().push(before.last().push(span))
        } else {
            before.push(seq![span])
        }
    }
}

/// The duration of all spans together.
pub open spec fn total_us(spans: Seq<SpanView>) -> nat
    decreases spans.len(),
{
    if spans.len() == 0 {
        0
    } else {
        total_us(spans.drop_last()) + spans.last().duration_us as nat
    }
}

/// The span shows that a pending Interest was answered.
pub open spec fn is_fanout(span: SpanView) -> bool {
    span.name@ == "pit.satisfy"@ || span.name@ == "pit.nack"@
}

/// Some span shows that a pending Interest was answered.
pub open spec fn any_fanout(spans: Seq<SpanView>) -> bool {
    exists|i: int| 0 <= i < spans.len() && is_fanout(#[trigger] spans[i])
}

/// A trace that is made of these spans, in this order.
pub open spec fn sums_up(trace: TraceView, spans: Seq<SpanView>) -> bool {
    &&& spans.len() > 0
    &&& trace.trace_id == spans[0].trace_id
    &&& trace.span_count == spans.len()
    &&& trace.root_name == spans[0].name
    &&& trace.duration_us == (if total_us(spans) > u64::MAX {
        u64::MAX as nat
    } else {
        total_us(spans)
    })
    &&& trace.has_pit_fanout == any_fanout(spans)
    &&& trace.spans@ == spans
}

/// The traces of a list of spans: one for each run in trace order.
pub open spec fn grouped(traces: Seq<TraceView>, spans: Seq<SpanView>) -> bool {
    let groups = runs(sorted_spans(spans));
    &&& traces.len() == groups.len()
    &&& forall|i: int| 0 <= i < traces.len() ==> sums_up(#[trigger] traces[i], groups[i])
}

proof fn lemma_flatten_push(groups: Seq<Seq<SpanView>>, group: Seq<SpanView>)
    ensures
        groups.push(group).flatten_alt() == groups.flatten_alt() + group,
{
    assert(groups.push(group).drop_last() =~= groups);
}

proof fn lemma_runs(spans: Seq<SpanView>)
    ensures
        spans.len() > 0 ==> runs(spans).len() > 0 && runs(spans).last().len() > 0
            && runs(spans).last().last() == spans.last(),
        forall|g: int|
            0 <= g < runs(spans).len() ==> (#[trigger] runs(spans)[g]).len() > 0 && forall|i: int|
                0 <= i < runs(spans)[g].len() ==> (#[trigger] runs(spans)[g][i]).trace_id@
                    == runs(spans)[g][0].trace_id@,
        runs(spans).flatten_alt() == spans,
    decreases spans.len(),
{
    if spans.len() > 0 {
        let shorter = spans.drop_last();
        lemma_runs(shorter);
        let before = runs(shorter);
        let span = spans.last();
        assert(spans =~= shorter.push(span));
        if before.len() > 0 && before.last().last().trace_id@ == span.trace_id@ {
            let group = before.last();
            let after = before.drop_last().push(group.push(span));
            assert(before =~= before.drop_last().push(group));
            lemma_flatten_push(before.drop_last(), group);
            lemma_flatten_push(before.drop_last(), group.push(span));
            assert(before.drop_last().flatten_alt() + group.push(span) =~= (
            before.drop_last().flatten_alt() + group).push(span));
            assert forall|g: int| 0 <= g < after.len() implies (#[trigger] after[g]).len() > 0
                && forall|i: int|
                0 <= i < after[g].len() ==> (#[trigger] after[g][i]).trace_id@
                    == after[g][0].trace_id@ by {
                if g < before.len() - 1 {
                    assert(after[g] == before[g]);
                } else {
                    assert(after[g] == group.push(span));
                    assert(before[g] == group);
                    assert forall|i: int| 0 <= i < after[g].len() implies (
                    #[trigger] after[g][i]).trace_id@ == after[g][0].trace_id@ by {
                        if i < group.len() {
                            assert(after[g][i] == before[g][i]);
                        } else {
                            assert(before[g][group.len() - 1].trace_id@ == before[g][0].trace_id@);
                        }
                    }
                }
            }
        } else {
            let after = before.push(seq![span]);
            lemma_flatten_push(before, seq![span]);
            assert(before.flatten_alt() + seq![span] =~= spans);
            assert forall|g: int| 0 <= g < after.len() implies (#[trigger] after[g]).len() > 0
                && forall|i: int|
                0 <= i < after[g].len() ==> (#[trigger] after[g][i]).trace_id@
                    == after[g][0].trace_id@ by {
                if g < before.len() {
                    assert(after[g] == before[g]);
                } else {
                    assert(after[g] == seq![span]);
                }
            }
        }
    } else {
        assert(runs(spans).flatten_alt() =~= spans);
    }
}

fn sort_spans(spans: &Vec<SpanView>) -> (r: Vec<SpanView>)
    ensures
        r@ == sorted_spans(spans@),
{
    let mut keys: Vec<SortKey> = Vec::new();
    let ghost key = |span: SpanView| span_rank(span);
    let mut i: usize = 0;
    while i < spans.len()
        invariant
            i <= spans@.len(),
            key == (|span: SpanView| span_rank(span)),
            keys@.len() == i,
            forall|j: int| 0 <= j < i ==> (#[trigger] keys@[j])@ == key(spans@[j]),
        decreases spans@.len() - i,
    {
        keys.push(
            SortKey { rank: 0, first: spans[i].trace_id.clone(), second: spans[i].span_id.clone() },
        );
        assert(keys@[i as int]@ == key(spans@[i as int]));
        i = i + 1;
    }
    assert(order::ranks(keys@) =~= spans@.map_values(key));
    let places = stable_order(&keys);
    let mut out: Vec<SpanView> = Vec::new();
    let mut i: usize = 0;
    while i < places.len()
        invariant
            i <= places@.len(),
            out@.len() == i,
            places@.len() == spans@.len(),
            forall|j: int|
                0 <= j < places@.len() ==> 0 <= #[trigger] order::positions(places@)[j]
                    < spans@.len(),
            forall|j: int|
                0 <= j < i ==> #[trigger] out@[j] == spans@[order::positions(places@)[j]],
        decreases places@.len() - i,
    {
        assert(order::positions(places@)[i as int] == places@[i as int]);
        out.push(spans[places[i]].clone());
        i = i + 1;
    }
    assert(out@ =~= sorted_spans(spans@));
    out
}

pub fn group_spans(spans: Vec<SpanView>) -> (r: Vec<TraceView>)
    ensures
        grouped(r@, spans@),
{
    let sorted = sort_spans(&spans);
    let mut traces: Vec<TraceView> = Vec::new();
    let mut i: usize = 0;
    while i < sorted.len()
        invariant
            i <= sorted@.len(),
            traces@.len() == runs(sorted@.take(i as int)).len(),
            forall|g: int|
                0 <= g < traces@.len() ==> sums_up(
                    #[trigger] traces@[g],
                    runs(sorted@.take(i as int))[g],
                ),
        decreases sorted@.len() - i,
    {
        let ghost done = sorted@.take(i as int);
        let ghost groups = runs(done);
        let ghost next = sorted@.take(i + 1);
        let span = sorted[i].clone();
        proof {
            assert(next.drop_last() =~= done);
            assert(next.last() == span);
            lemma_runs(done);
        }
        let joins = match traces.pop() {
            Some(last) => {
                let ghost group = groups.last();
                assert(sums_up(last, group));
                assert(group.last().trace_id@ == last.trace_id@) by {
                    assert(groups[groups.len() - 1][group.len() - 1].trace_id@ == group[0].trace_id@);
                }
                if same_text(last.trace_id.as_str(), span.trace_id.as_str()) {
                    let fanout = same_text(span.name.as_str(), "pit.satisfy") || same_text(
                        span.name.as_str(),
                        "pit.nack",
                    );
                    let ghost longer = group.push(span);
                    let mut last = last;
                    last.duration_us = last.duration_us.saturating_add(span.duration_us);
                    last.has_pit_fanout = last.has_pit_fanout || fanout;
                    assert(last.spans@.len() == last.spans.len());
                    last.spans.push(span);
                    last.span_count = last.spans.len();
                    proof {
                        assert(longer.drop_last() =~= group);
                        assert(any_fanout(longer) == (any_fanout(group) || is_fanout(span))) by {
                            if any_fanout(group) {
                                let k = choose|k: int|
                                    0 <= k < group.len() && is_fanout(#[trigger] group[k]);
                                assert(longer[k] == group[k]);
                            }
                            if is_fanout(span) {
                                assert(longer[group.len() as int] == span);
                            }
                            if any_fanout(longer) {
                                let k = choose|k: int|
                                    0 <= k < longer.len() && is_fanout(#[trigger] longer[k]);
                                if k < group.len() {
                                    assert(group[k] == longer[k]);
                                }
                            }
                        }
                        assert(sums_up(last, longer));
                    }
                    traces.push(last);
                    true
                } else {
                    traces.push(last);
                    false
                }
            },
            None => false,
        };
        if !joins {
            let span = sorted[i].clone();
            let fanout = same_text(span.name.as_str(), "pit.satisfy") || same_text(
                span.name.as_str(),
                "pit.nack",
            );
            let ghost group = seq![span];
            proof {
                assert(group.drop_last() =~= seq![]);
                assert(total_us(group.drop_last()) == 0);
                assert(any_fanout(group) == is_fanout(span)) by {
                    assert(group[0] == span);
                }
            }
            let trace = TraceView {
                trace_id: span.trace_id.clone(),
                span_count: 1,
                root_name: span.name.clone(),
                duration_us: span.duration_us,
                has_pit_fanout: fanout,
                spans: vec![span],
            };
            assert(trace.spans@ =~= group);
            assert(sums_up(trace, group));
            traces.push(trace);
        }
        i = i + 1;
    }
    assert(sorted@.take(i as int) =~= sorted@);
    traces
}

/// There are no traces exactly where there are no spans.
pub proof fn no_trace_without_spans(traces: Seq<TraceView>, spans: Seq<SpanView>)
    requires
        grouped(traces, spans),
    ensures
        traces.len() == 0 <==> spans.len() == 0,
{
    let keys = spans.map_values(|span: SpanView| span_rank(span));
    order::order_of_is_stable(keys);
    lemma_runs(sorted_spans(spans));
    if spans.len() == 0 {
        assert(sorted_spans(spans).len() == 0);
    }
}

/// The spans of all traces, one after another.
pub open spec fn all_spans(traces: Seq<TraceView>) -> Seq<SpanView> {
    traces.map_values(|trace: TraceView| trace.spans@).flatten_alt()
}

/// Grouping loses and repeats no span: the traces hold the sorted spans, one
/// after another, and within a trace all spans have its id.
pub proof fn grouping_partitions_the_spans(traces: Seq<TraceView>, spans: Seq<SpanView>)
    requires
        grouped(traces, spans),
    ensures
        all_spans(traces) == sorted_spans(spans),
        order::is_stable_order(
            spans.map_values(|span: SpanView| span_rank(span)),
            order::order_of(spans.map_values(|span: SpanView| span_rank(span))),
        ),
        forall|g: int, i: int|
            0 <= g < traces.len() && 0 <= i < traces[g].spans@.len() ==> (
            #[trigger] traces[g].spans@[i]).trace_id@ == traces[g].trace_id@,
{
    let groups = runs(sorted_spans(spans));
    lemma_runs(sorted_spans(spans));
    order::order_of_is_stable(spans.map_values(|span: SpanView| span_rank(span)));
    assert(traces.map_values(|trace: TraceView| trace.spans@) =~= groups) by {
        assert forall|g: int| 0 <= g < traces.len() implies traces[g].spans@
            == groups[g] by {
            assert(sums_up(traces[g], groups[g]));
        }
    }
    assert forall|g: int, i: int|
        0 <= g < traces.len() && 0 <= i < traces[g].spans@.len() implies (
    #[trigger] traces[g].spans@[i]).trace_id@ == traces[g].trace_id@ by {
        assert(sums_up(traces[g], groups[g]));
        assert(groups[g][i].trace_id@ == groups[g][0].trace_id@);
    }
}

/// Spans stand in the order of their trace ids.
spec fn ascends(spans: Seq<SpanView>) -> bool {
    forall|i: int, j: int|
        0 <= i < j < spans.len() ==> !text::text_lt(
            (#[trigger] spans[j]).trace_id@,
            (#[trigger] spans[i]).trace_id@,
        )
}

proof fn lemma_sorted_ascends(spans: Seq<SpanView>)
    ensures
        ascends(sorted_spans(spans)),
{
    let keys = spans.map_values(|span: SpanView| span_rank(span));
    let order = order::order_of(keys);
    let sorted = sorted_spans(spans);
    order::order_of_is_stable(keys);
    assert forall|i: int, j: int| 0 <= i < j < sorted.len() implies !text::text_lt(
        (#[trigger] sorted[j]).trace_id@,
        (#[trigger] sorted[i]).trace_id@,
    ) by {
        let a = sorted[i].trace_id@;
        let b = sorted[j].trace_id@;
        assert(order::comes_before(keys, order[i], order[j]));
        assert(keys[order[i]] == span_rank(sorted[i]) && keys[order[j]] == span_rank(sorted[j]));
        text::lemma_text_lt_irreflexive(a);
        if text::text_lt(a, b) && text::text_lt(b, a) {
            text::lemma_text_lt_transitive(a, b, a);
        }
    }
}

proof fn lemma_runs_ascend(spans: Seq<SpanView>)
    requires
        ascends(spans),
    ensures
        forall|g: int, h: int|
            0 <= g < h < runs(spans).len() ==> text::text_lt(
                (#[trigger] runs(spans)[g]).last().trace_id@,
                (#[trigger] runs(spans)[h]).last().trace_id@,
            ),
    decreases spans.len(),
{
    if spans.len() > 0 {
        let shorter = spans.drop_last();
        let before = runs(shorter);
        let after = runs(spans);
        let span = spans.last();
        lemma_runs_ascend(shorter);
        lemma_runs(shorter);
        assert forall|g: int, h: int| 0 <= g < h < after.len() implies text::text_lt(
            (#[trigger] after[g]).last().trace_id@,
            (#[trigger] after[h]).last().trace_id@,
        ) by {
            assert(after[g] == before[g]);
            if h < before.len() {
                assert(text::text_lt(before[g].last().trace_id@, before[h].last().trace_id@));
            } else {
                let top = before.len() - 1;
                assert(before[top].last() == spans[spans.len() - 2]);
                text::lemma_text_lt_total(before[top].last().trace_id@, span.trace_id@);
                if g < top {
                    text::lemma_text_lt_transitive(
                        before[g].last().trace_id@,
                        before[top].last().trace_id@,
                        span.trace_id@,
                    );
                }
            }
        }
    }
}

/// All spans with one trace id are in one trace: no two traces have the same
/// id, and the traces stand in the order of their ids.
pub proof fn each_trace_id_has_one_trace(traces: Seq<TraceView>, spans: Seq<SpanView>)
    requires
        grouped(traces, spans),
    ensures
        forall|g: int, h: int|
            0 <= g < h < traces.len() ==> text::text_lt(
                (#[trigger] traces[g]).trace_id@,
                (#[trigger] traces[h]).trace_id@,
            ) && traces[g].trace_id@ != traces[h].trace_id@,
{
    let groups = runs(sorted_spans(spans));
    lemma_sorted_ascends(spans);
    lemma_runs(sorted_spans(spans));
    lemma_runs_ascend(sorted_spans(spans));
    assert forall|g: int, h: int| 0 <= g < h < traces.len() implies text::text_lt(
        (#[trigger] traces[g]).trace_id@,
        (#[trigger] traces[h]).trace_id@,
    ) && traces[g].trace_id@ != traces[h].trace_id@ by {
        assert(sums_up(traces[g], groups[g]) && sums_up(traces[h], groups[h]));
        assert(groups[g][groups[g].len() - 1].trace_id@ == groups[g][0].trace_id@);
        assert(groups[h][groups[h].len() - 1].trace_id@ == groups[h][0].trace_id@);
        text::lemma_text_lt_irreflexive(traces[g].trace_id@);
    }
}

/// No two spans have the same trace id and span id.
pub open spec fn distinct_spans(spans: Seq<SpanView>) -> bool {
    forall|i: int, j: int|
        0 <= i < j < spans.len() ==> span_rank(#[trigger] spans[i]) != span_rank(
            #[trigger] spans[j],
        )
}

/// Each span stands before the next, by trace and span id.
spec fn climbs(spans: Seq<SpanView>) -> bool {
    forall|i: int, j: int|
        0 <= i < j < spans.len() ==> span_rank(#[trigger] spans[i]).lt(
            span_rank(#[trigger] spans[j]),
        )
}

proof fn lemma_sorted_climbs(spans: Seq<SpanView>)
    requires
        distinct_spans(spans),
    ensures
        climbs(sorted_spans(spans)),
        forall|span: SpanView| #[trigger]
            sorted_spans(spans).contains(span) <==> spans.contains(span),
{
    let keys = spans.map_values(|span: SpanView| span_rank(span));
    let order = order::order_of(keys);
    let sorted = sorted_spans(spans);
    order::order_of_is_stable(keys);
    assert forall|i: int, j: int| 0 <= i < j < sorted.len() implies span_rank(
        #[trigger] sorted[i],
    ).lt(span_rank(#[trigger] sorted[j])) by {
        let a = order[i];
        let b = order[j];
        assert(order::comes_before(keys, a, b));
        assert(keys[a] == span_rank(spans[a]) && keys[b] == span_rank(spans[b]));
        if !keys[a].lt(keys[b]) {
            assert(a < b && span_rank(spans[a]) == span_rank(spans[b]));
        }
    }
    assert forall|span: SpanView| #[trigger] sorted.contains(span) implies spans.contains(span) by {
        let i = choose|i: int| 0 <= i < sorted.len() && sorted[i] == span;
        assert(spans[order[i]] == span);
    }
    assert forall|span: SpanView| spans.contains(span) implies #[trigger] sorted.contains(span) by {
        let k = choose|k: int| 0 <= k < spans.len() && spans[k] == span;
        assert(order.contains(k));
        let i = choose|i: int| 0 <= i < order.len() && order[i] == k;
        assert(sorted[i] == span);
    }
}

proof fn lemma_climb_is_unique(a: Seq<SpanView>, b: Seq<SpanView>)
    requires
        climbs(a),
        climbs(b),
        forall|span: SpanView| #[trigger] a.contains(span) <==> b.contains(span),
    ensures
        a == b,
    decreases a.len(),
{
    if a.len() == 0 {
        if b.len() > 0 {
            assert(b.contains(b[0]));
            assert(a.contains(b[0]));
        }
        assert(a =~= b);
    } else {
        let x = a.last();
        assert(a.contains(x));
        assert(b.contains(x));
        let y = b.last();
        assert(b.contains(y));
        assert(a.contains(y));
        let i = choose|i: int| 0 <= i < b.len() && b[i] == x;
        let j = choose|j: int| 0 <= j < a.len() && a[j] == y;
        assert(x == y) by {
            if i < b.len() - 1 && j < a.len() - 1 {
                assert(span_rank(x).lt(span_rank(y)));
                assert(span_rank(y).lt(span_rank(x)));
                order::lemma_lt_total(span_rank(x), span_rank(y));
            }
        }
        let shorter_a = a.drop_last();
        let shorter_b = b.drop_last();
        assert forall|span: SpanView| #[trigger] shorter_a.contains(span) implies shorter_b.contains(
            span,
        ) by {
            let k = choose|k: int| 0 <= k < shorter_a.len() && shorter_a[k] == span;
            assert(a[k] == span);
            assert(a.contains(span));
            let l = choose|l: int| 0 <= l < b.len() && b[l] == span;
            assert(span_rank(a[k]).lt(span_rank(a[a.len() - 1])));
            order::lemma_lt_total(span_rank(span), span_rank(x));
            assert(shorter_b[l] == span);
        }
        assert forall|span: SpanView| shorter_b.contains(span) implies #[trigger] shorter_a.contains(
            span,
        ) by {
            let k = choose|k: int| 0 <= k < shorter_b.len() && shorter_b[k] == span;
            assert(b[k] == span);
            assert(b.contains(span));
            assert(a.contains(span));
            let l = choose|l: int| 0 <= l < a.len() && a[l] == span;
            assert(span_rank(b[k]).lt(span_rank(b[b.len() - 1])));
            order::lemma_lt_total(span_rank(span), span_rank(x));
            assert(shorter_a[l] == span);
        }
        lemma_climb_is_unique(shorter_a, shorter_b);
        assert(a =~= shorter_a.push(x));
        assert(b =~= shorter_b.push(y));
    }
}

/// Grouping forgets the order in which spans arrive: the same spans, in any two
/// orders, make the same traces, as long as no two of them share their ids.
pub proof fn grouping_forgets_arrival(
    first: Seq<TraceView>,
    second: Seq<TraceView>,
    spans: Seq<SpanView>,
    others: Seq<SpanView>,
)
    requires
        grouped(first, spans),
        grouped(second, others),
        distinct_spans(spans),
        distinct_spans(others),
        forall|span: SpanView| #[trigger] spans.contains(span) <==> others.contains(span),
    ensures
        models(first) == models(second),
{
    lemma_sorted_climbs(spans);
    lemma_sorted_climbs(others);
    assert forall|span: SpanView| #[trigger]
        sorted_spans(spans).contains(span) <==> sorted_spans(others).contains(span) by {
        assert(spans.contains(span) <==> others.contains(span));
    }
    lemma_climb_is_unique(sorted_spans(spans), sorted_spans(others));
    let groups = runs(sorted_spans(spans));
    assert forall|g: int| 0 <= g < first.len() implies models(first)[g] == models(second)[g] by {
        assert(sums_up(first[g], groups[g]) && sums_up(second[g], groups[g]));
    }
    assert(models(first) =~= models(second));
}

// ---------------------------------------------------------------------------
// Stand-in trace
// ---------------------------------------------------------------------------

/// The stand-in trace: an Interest and how its pending entry was satisfied.
pub open spec fn is_mock_trace(trace: TraceView) -> bool {
    &&& trace.trace_id@ == "aaaaaaaaaaaaaaaaaaaaaaaaaaaaaaaa"@
    &&& trace.span_count == 2
    &&& trace.root_name@ == "interest"@
    &&& trace.duration_us == 3520
    &&& trace.has_pit_fanout
    &&& trace.spans@.len() == 2
    &&& trace.spans@[0].trace_id@ == "aaaaaaaaaaaaaaaaaaaaaaaaaaaaaaaa"@
    &&& trace.spans@[0].span_id@ == "0000000000000001"@
    &&& trace.spans@[0].parent_span_id is None
    &&& trace.spans@[0].name@ == "interest"@
    &&& trace.spans@[0].target@ == "fwd.pipeline"@
    &&& text::opt_text(trace.spans@[0].interest_name) == Some("/demo/video/keyframe"@)
    &&& trace.spans@[0].face_id == Some(7i64)
    &&& text::opt_text(trace.spans@[0].strategy) == Some("best-route"@)
    &&& trace.spans@[0].status is Okay
    &&& trace.spans@[0].duration_us == 3400
    &&& trace.spans@[1].trace_id@ == "aaaaaaaaaaaaaaaaaaaaaaaaaaaaaaaa"@
    &&& trace.spans@[1].span_id@ == "0000000000000002"@
    &&& text::opt_text(trace.spans@[1].parent_span_id) == Some("0000000000000001"@)
    &&& trace.spans@[1].name@ == "pit.satisfy"@
    &&& trace.spans@[1].target@ == "fwd.pit"@
    &&& text::opt_text(trace.spans@[1].interest_name) == Some("/demo/video/keyframe"@)
    &&& trace.spans@[1].face_id == Some(11i64)
    &&& trace.spans@[1].strategy is None
    &&& trace.spans@[1].status is Okay
    &&& trace.spans@[1].duration_us == 120
}

pub fn mock_trace() -> (r: TraceView)
    ensures
        is_mock_trace(r),
{
    let spans = vec![
        SpanView {
            trace_id: "aaaaaaaaaaaaaaaaaaaaaaaaaaaaaaaa".to_string(),
            span_id: "0000000000000001".to_string(),
            parent_span_id: None,
            name: "interest".to_string(),
            target: "fwd.pipeline".to_string(),
            interest_name: Some("/demo/video/keyframe".to_string()),
            face_id: Some(7),
            strategy: Some("best-route".to_string()),
            status: SpanStatus::Okay,
            duration_us: 3400,
        },
        SpanView {
            trace_id: "aaaaaaaaaaaaaaaaaaaaaaaaaaaaaaaa".to_string(),
            span_id: "0000000000000002".to_string(),
            parent_span_id: Some("0000000000000001".to_string()),
            name: "pit.satisfy".to_string(),
            target: "fwd.pit".to_string(),
            interest_name: Some("/demo/video/keyframe".to_string()),
            face_id: Some(11),
            strategy: None,
            status: SpanStatus::Okay,
            duration_us: 120,
        },
    ];
    TraceView {
        trace_id: "aaaaaaaaaaaaaaaaaaaaaaaaaaaaaaaa".to_string(),
        span_count: 2,
        root_name: "interest".to_string(),
        duration_us: 3520,
        has_pit_fanout: true,
        spans,
    }
}

// ---------------------------------------------------------------------------
// Filtering
// ---------------------------------------------------------------------------

/// The text holds a term, ASCII letters taken as lower case.
pub open spec fn mentions(value: Seq<char>, term: Seq<char>) -> bool {
    text::occurs(text::ascii_lower(value), term)
}

/// An optional text holds a term.
pub open spec fn opt_mentions(value: Option<String>, term: Seq<char>) -> bool {
    value matches Some(inner) && mentions(inner@, term)
}

/// Some field of a span holds a term.
pub open spec fn span_mentions(span: SpanView, term: Seq<char>) -> bool {
    ||| mentions(span.trace_id@, term)
    ||| mentions(span.span_id@, term)
    ||| opt_mentions(span.parent_span_id, term)
    ||| mentions(span.name@, term)
    ||| mentions(span.target@, term)
    ||| opt_mentions(span.interest_name, term)
    ||| (span.face_id matches Some(face) && text::occurs(number::signed_text(face as int), term))
    ||| opt_mentions(span.strategy, term)
    ||| mentions(span.status.label_text(), term)
}

/// The trace or one of its spans holds a term.
pub open spec fn trace_mentions(trace: TraceModel, term: Seq<char>) -> bool {
    ||| mentions(trace.trace_id@, term)
    ||| mentions(trace.root_name@, term)
    ||| exists|i: int| 0 <= i < trace.spans.len() && span_mentions(#[trigger] trace.spans[i], term)
}

/// The trace holds every word of a query.
pub open spec fn trace_answers(trace: TraceModel, query: Seq<char>) -> bool {
    forall|i: int|
        0 <= i < text::words(query).len() ==> trace_mentions(
            trace,
            text::ascii_lower(#[trigger] text::words(query)[i]),
        )
}

fn text_matches(value: &str, term: &str) -> (r: bool)
    ensures
        r == mentions(value@, term@),
{
    contains(ascii_lowercase(value).as_str(), term)
}

fn opt_text_matches(value: &Option<String>, term: &str) -> (r: bool)
    ensures
        r == opt_mentions(*value, term@),
{
    match value {
        Some(inner) => text_matches(inner.as_str(), term),
        None => false,
    }
}

fn span_matches(span: &SpanView, term: &str) -> (r: bool)
    ensures
        r == span_mentions(*span, term@),
{
    text_matches(span.trace_id.as_str(), term) || text_matches(span.span_id.as_str(), term)
        || opt_text_matches(&span.parent_span_id, term) || text_matches(span.name.as_str(), term)
        || text_matches(span.target.as_str(), term) || opt_text_matches(&span.interest_name, term)
        || (match span.face_id {
        Some(face) => contains(decimal_signed(face).as_str(), term),
        None => false,
    }) || opt_text_matches(&span.strategy, term) || text_matches(span.status.label(), term)
}

fn trace_matches(trace: &TraceView, term: &str) -> (r: bool)
    ensures
        r == trace_mentions(trace@, term@),
{
    if text_matches(trace.trace_id.as_str(), term) || text_matches(trace.root_name.as_str(), term) {
        return true;
    }
    let mut i: usize = 0;
    while i < trace.spans.len()
        invariant
            i <= trace.spans@.len(),
            forall|j: int| 0 <= j < i ==> !span_mentions(#[trigger] trace.spans@[j], term@),
        decreases trace.spans@.len() - i,
    {
        if span_matches(&trace.spans[i], term) {
            assert(span_mentions(trace@.spans[i as int], term@));
            return true;
        }
        i = i + 1;
    }
    false
}

pub fn filter_traces(traces: &[TraceView], query: &str) -> (r: Vec<TraceView>)
    ensures
        models(r@) == models(traces@).filter(|trace: TraceModel| trace_answers(trace, query@)),
{
    let terms = split_words(query);
    let ghost answers = |trace: TraceModel| trace_answers(trace, query@);
    let mut out: Vec<TraceView> = Vec::new();
    let mut i: usize = 0;
    proof {
        reveal(Seq::filter);
        assert(models(out@) =~= models(traces@).take(0).filter(answers));
    }
    while i < traces.len()
        invariant
            i <= traces@.len(),
            text::texts(terms@) == text::words(query@),
            answers == (|trace: TraceModel| trace_answers(trace, query@)),
            models(out@) == models(traces@).take(i as int).filter(answers),
        decreases traces@.len() - i,
    {
        let mut keep = true;
        let mut k: usize = 0;
        while k < terms.len()
            invariant
                i < traces@.len(),
                k <= terms@.len(),
                text::texts(terms@) == text::words(query@),
                keep == forall|j: int|
                    0 <= j < k ==> trace_mentions(
                        traces@[i as int]@,
                        text::ascii_lower(#[trigger] text::words(query@)[j]),
                    ),
            decreases terms@.len() - k,
        {
            let term = ascii_lowercase(terms[k]);
            assert(text::words(query@)[k as int] == terms@[k as int]@);
            if !trace_matches(&traces[i], term.as_str()) {
                keep = false;
            }
            k = k + 1;
        }
        let ghost before = out@;
        if keep {
            out.push(traces[i].clone());
        }
        proof {
            reveal(Seq::filter);
            let all = models(traces@);
            assert(all.take(i + 1).drop_last() =~= all.take(i as int));
            assert(all.take(i + 1).last() == traces@[i as int]@);
            assert(keep == answers(traces@[i as int]@));
            if keep {
                assert(models(out@) =~= models(before).push(traces@[i as int]@));
            }
        }
        i = i + 1;
    }
    assert(models(traces@).take(i as int) =~= models(traces@));
    out
}

/// A query without words keeps every trace.
pub proof fn empty_query_keeps_all(traces: Seq<TraceModel>, query: Seq<char>)
    requires
        text::words(query).len() == 0,
    ensures
        traces.filter(|trace: TraceModel| trace_answers(trace, query)) == traces,
    decreases traces.len(),
{
    reveal(Seq::filter);
    if traces.len() > 0 {
        empty_query_keeps_all(traces.drop_last(), query);
        assert(traces.drop_last().push(traces.last()) =~= traces);
    }
}

// ---------------------------------------------------------------------------
// Answers to pending Interests
// ---------------------------------------------------------------------------

#[derive(Debug, PartialEq, Eq)]
pub struct PitFanOutRow {
    pub span_name: String,
    pub face_id: Option<i64>,
    pub interest_name: Option<String>,
    pub status: SpanStatus,
    pub duration_us: u64,
}

impl Clone for PitFanOutRow {
    fn clone(&self) -> (r: Self)
        ensures
            r == *self,
    {
        PitFanOutRow {
            span_name: self.span_name.clone(),
            face_id: self.face_id,
            interest_name: self.interest_name.clone(),
            status: self.status,
            duration_us: self.duration_us,
        }
    }
}

/// The row of a span that is about the pending Interest table.
pub open spec fn fanout_row(span: SpanView) -> PitFanOutRow {
    PitFanOutRow {
        span_name: span.name,
        face_id: span.face_id,
        interest_name: span.interest_name,
        status: span.status,
        duration_us: span.duration_us,
    }
}

/// The span is about the pending Interest table.
pub open spec fn is_pit_span(span: SpanView) -> bool {
    "pit."@.is_prefix_of(span.name@)
}

pub fn pit_fanout_rows(trace: &TraceView) -> (r: Vec<PitFanOutRow>)
    ensures
        r@ == trace.spans@.filter(|span: SpanView| is_pit_span(span)).map_values(
            |span: SpanView| fanout_row(span),
        ),
{
    let ghost pit = |span: SpanView| is_pit_span(span);
    let ghost row = |span: SpanView| fanout_row(span);
    let mut out: Vec<PitFanOutRow> = Vec::new();
    let mut i: usize = 0;
    proof {
        reveal(Seq::filter);
        assert(out@ =~= trace.spans@.take(0).filter(pit).map_values(row));
    }
    while i < trace.spans.len()
        invariant
            i <= trace.spans@.len(),
            pit == (|span: SpanView| is_pit_span(span)),
            row == (|span: SpanView| fanout_row(span)),
            out@ == trace.spans@.take(i as int).filter(pit).map_values(row),
        decreases trace.spans@.len() - i,
    {
        let ghost before = trace.spans@.take(i as int).filter(pit);
        proof {
            reveal(Seq::filter);
            assert(trace.spans@.take(i + 1).drop_last() =~= trace.spans@.take(i as int));
        }
        let span = &trace.spans[i];
        if starts_with(span.name.as_str(), "pit.") {
            out.push(
                PitFanOutRow {
                    span_name: span.name.clone(),
                    face_id: span.face_id,
                    interest_name: span.interest_name.clone(),
                    status: span.status,
                    duration_us: span.duration_us,
                },
            );
            assert(before.push(*span).map_values(row) =~= before.map_values(row).push(row(*span)));
        }
        i = i + 1;
    }
    assert(trace.spans@.take(i as int) =~= trace.spans@);
    out
}

// ---------------------------------------------------------------------------
// Laws
// ---------------------------------------------------------------------------

proof fn lemma_total_is_sum(spans: Seq<SpanView>)
    ensures
        total_us(spans) == spans.fold_left(0int, |sum: int, span: SpanView| sum + span.duration_us),
    decreases spans.len(),
{
    if spans.len() > 0 {
        lemma_total_is_sum(spans.drop_last());
    }
}

proof fn lemma_runs_within(spans: Seq<SpanView>)
    requires
        forall|i: int, j: int|
            0 <= i < j < spans.len() ==> !span_rank(#[trigger] spans[j]).lt(
                span_rank(#[trigger] spans[i]),
            ),
    ensures
        forall|g: int, k: int|
            0 <= g < runs(spans).len() && 0 <= k < runs(spans)[g].len() ==> spans.contains(
                #[trigger] runs(spans)[g][k],
            ),
        forall|g: int, k: int, l: int|
            0 <= g < runs(spans).len() && 0 <= k < l < runs(spans)[g].len() ==> !span_rank(
                #[trigger] runs(spans)[g][l],
            ).lt(span_rank(#[trigger] runs(spans)[g][k])),
    decreases spans.len(),
{
    if spans.len() > 0 {
        let shorter = spans.drop_last();
        assert forall|i: int, j: int| 0 <= i < j < shorter.len() implies !span_rank(
            #[trigger] shorter[j],
        ).lt(span_rank(#[trigger] shorter[i])) by {
            assert(shorter[i] == spans[i] && shorter[j] == spans[j]);
        }
        lemma_runs_within(shorter);
        lemma_runs(shorter);
        let before = runs(shorter);
        let span = spans.last();
        let after = runs(spans);
        let last = spans.len() - 1;
        assert(spans[last] == span);
        let joined = before.len() > 0 && before.last().last().trace_id@ == span.trace_id@;
        assert forall|g: int, k: int| 0 <= g < after.len() && 0 <= k < after[g].len() implies
            spans.contains(#[trigger] after[g][k]) by {
            if g < before.len() && k < before[g].len() {
                assert(after[g][k] == before[g][k]);
                assert(shorter.contains(before[g][k]));
                let i = choose|i: int| 0 <= i < shorter.len() && shorter[i] == before[g][k];
                assert(spans[i] == after[g][k]);
            } else {
                assert(after[g][k] == span);
            }
        }
        assert forall|g: int, k: int, l: int|
            0 <= g < after.len() && 0 <= k < l < after[g].len() implies !span_rank(
            #[trigger] after[g][l],
        ).lt(span_rank(#[trigger] after[g][k])) by {
            if g < before.len() && l < before[g].len() {
                assert(after[g][k] == before[g][k] && after[g][l] == before[g][l]);
            } else {
                assert(after[g][l] == span);
                assert(after[g][k] == before[g][k]);
                assert(shorter.contains(before[g][k]));
                let i = choose|i: int| 0 <= i < shorter.len() && shorter[i] == before[g][k];
                assert(spans[i] == after[g][k]);
            }
        }
    }
}

proof fn lemma_sorted_never_falls(spans: Seq<SpanView>)
    ensures
        sorted_spans(spans).len() == spans.len(),
        forall|i: int, j: int|
            0 <= i < j < spans.len() ==> !span_rank(#[trigger] sorted_spans(spans)[j]).lt(
                span_rank(#[trigger] sorted_spans(spans)[i]),
            ),
        forall|i: int| 0 <= i < spans.len() ==> sorted_spans(spans).contains(#[trigger] spans[i]),
{
    let keys = spans.map_values(|span: SpanView| span_rank(span));
    let turned = order::order_of(keys);
    order::order_of_is_stable(keys);
    let sorted = sorted_spans(spans);
    assert forall|i: int, j: int| 0 <= i < j < spans.len() implies !span_rank(
        #[trigger] sorted[j],
    ).lt(span_rank(#[trigger] sorted[i])) by {
        assert(order::comes_before(keys, turned[i], turned[j]));
        order::lemma_lt_total(keys[turned[i]], keys[turned[j]]);
        assert(keys[turned[i]] == span_rank(sorted[i]));
        assert(keys[turned[j]] == span_rank(sorted[j]));
    }
    assert forall|i: int| 0 <= i < spans.len() implies sorted.contains(#[trigger] spans[i]) by {
        assert(turned.contains(i));
        let k = choose|k: int| 0 <= k < turned.len() && turned[k] == i;
        assert(sorted[k] == spans[i]);
    }
}

/// A trace tells of its spans: how many there are, the name of the first, their
/// durations added up as far as the number reaches, and whether one of them
/// answered a pending Interest. All have the id of the trace, and they stand in
/// the order of their own ids.
pub proof fn a_trace_tells_of_its_spans(traces: Seq<TraceView>, spans: Seq<SpanView>, g: int)
    requires
        grouped(traces, spans),
        0 <= g < traces.len(),
    ensures
        ({
            let trace = traces[g];
            let own = trace.spans@;
            let sum = own.fold_left(0int, |sum: int, span: SpanView| sum + span.duration_us);
            &&& trace.span_count == own.len() && own.len() > 0
            &&& trace.root_name@ == own[0].name@
            &&& sum <= u64::MAX ==> trace.duration_us == sum
            &&& sum > u64::MAX ==> trace.duration_us == u64::MAX
            &&& trace.has_pit_fanout <==> exists|k: int|
                0 <= k < own.len() && ((#[trigger] own[k]).name@ == "pit.satisfy"@ || own[k].name@
                    == "pit.nack"@)
            &&& forall|k: int|
                0 <= k < own.len() ==> (#[trigger] own[k]).trace_id@ == trace.trace_id@
            &&& forall|k: int, l: int|
                0 <= k < l < own.len() ==> !text::text_lt(
                    (#[trigger] own[l]).span_id@,
                    (#[trigger] own[k]).span_id@,
                )
        }),
{
    let sorted = sorted_spans(spans);
    let groups = runs(sorted);
    let own = traces[g].spans@;
    assert(sums_up(traces[g], groups[g]));
    lemma_total_is_sum(own);
    lemma_runs(sorted);
    lemma_sorted_never_falls(spans);
    lemma_runs_within(sorted);
    if traces[g].has_pit_fanout {
        let k = choose|k: int| 0 <= k < own.len() && is_fanout(#[trigger] own[k]);
        assert(own[k].name@ == "pit.satisfy"@ || own[k].name@ == "pit.nack"@);
    }
    if exists|k: int|
        0 <= k < own.len() && ((#[trigger] own[k]).name@ == "pit.satisfy"@ || own[k].name@
            == "pit.nack"@) {
        let k = choose|k: int|
            0 <= k < own.len() && ((#[trigger] own[k]).name@ == "pit.satisfy"@ || own[k].name@
                == "pit.nack"@);
        assert(is_fanout(own[k]));
    }
    assert forall|k: int| 0 <= k < own.len() implies (#[trigger] own[k]).trace_id@
        == traces[g].trace_id@ by {
        assert(groups[g][k].trace_id@ == groups[g][0].trace_id@);
    }
    assert forall|k: int, l: int| 0 <= k < l < own.len() implies !text::text_lt(
        (#[trigger] own[l]).span_id@,
        (#[trigger] own[k]).span_id@,
    ) by {
        assert(!span_rank(groups[g][l]).lt(span_rank(groups[g][k])));
        assert(own[k].trace_id@ == own[l].trace_id@);
    }
}

proof fn lemma_in_some_trace(groups: Seq<Seq<SpanView>>, span: SpanView) -> (place: (int, int))
    requires
        groups.flatten_alt().contains(span),
    ensures
        0 <= place.0 < groups.len(),
        0 <= place.1 < groups[place.0].len(),
        groups[place.0][place.1] == span,
    decreases groups.len(),
{
    if groups.len() == 0 {
        assert(groups.flatten_alt() =~= seq![]);
        (0, 0)
    } else {
        let before = groups.drop_last();
        let last = groups.last();
        let all = groups.flatten_alt();
        assert(all == before.flatten_alt() + last);
        let i = choose|i: int| 0 <= i < all.len() && all[i] == span;
        let n = before.flatten_alt().len();
        if i < n {
            assert(before.flatten_alt()[i] == span);
            let place = lemma_in_some_trace(before, span);
            assert(groups[place.0] == before[place.0]);
            place
        } else {
            (groups.len() - 1, i - n)
        }
    }
}

/// Every span is in some trace, and then in the one that has its trace id.
pub proof fn every_span_is_in_its_trace(
    traces: Seq<TraceView>,
    spans: Seq<SpanView>,
    i: int,
) -> (place: (int, int))
    requires
        grouped(traces, spans),
        0 <= i < spans.len(),
    ensures
        0 <= place.0 < traces.len(),
        0 <= place.1 < traces[place.0].spans@.len(),
        traces[place.0].spans@[place.1] == spans[i],
        traces[place.0].trace_id@ == spans[i].trace_id@,
{
    let groups = runs(sorted_spans(spans));
    lemma_sorted_never_falls(spans);
    lemma_runs(sorted_spans(spans));
    let place = lemma_in_some_trace(groups, spans[i]);
    assert(sums_up(traces[place.0], groups[place.0]));
    a_trace_tells_of_its_spans(traces, spans, place.0);
    assert(traces[place.0].spans@[place.1].trace_id@ == traces[place.0].trace_id@);
    place
}

/// A filter keeps a trace exactly where every word of the query, in lower case,
/// stands somewhere in the trace: in its id, its root, or one of the fields of
/// one of its spans.
pub proof fn every_word_has_to_be_found(traces: Seq<TraceModel>, query: Seq<char>, i: int)
    requires
        0 <= i < traces.len(),
    ensures
        traces.filter(|trace: TraceModel| trace_answers(trace, query)).contains(traces[i]) <==> (
        forall|n: int|
            0 <= n < text::words(query).len() ==> {
                let term = text::ascii_lower(#[trigger] text::words(query)[n]);
                let trace = traces[i];
                ||| text::occurs(text::ascii_lower(trace.trace_id@), term)
                ||| text::occurs(text::ascii_lower(trace.root_name@), term)
                ||| exists|k: int|
                    0 <= k < trace.spans.len() && {
                        let span = #[trigger] trace.spans[k];
                        ||| text::occurs(text::ascii_lower(span.trace_id@), term)
                        ||| text::occurs(text::ascii_lower(span.span_id@), term)
                        ||| span.parent_span_id is Some && text::occurs(
                            text::ascii_lower(span.parent_span_id->0@),
                            term,
                        )
                        ||| text::occurs(text::ascii_lower(span.name@), term)
                        ||| text::occurs(text::ascii_lower(span.target@), term)
                        ||| span.interest_name is Some && text::occurs(
                            text::ascii_lower(span.interest_name->0@),
                            term,
                        )
                        ||| span.face_id is Some && text::occurs(
                            number::signed_text(span.face_id->0 as int),
                            term,
                        )
                        ||| span.strategy is Some && text::occurs(
                            text::ascii_lower(span.strategy->0@),
                            term,
                        )
                        ||| span.status is Okay && text::occurs(text::ascii_lower("ok"@), term)
                        ||| span.status is Error && text::occurs(text::ascii_lower("error"@), term)
                        ||| span.status is Unset && text::occurs(text::ascii_lower("unset"@), term)
                    }
            }),
{
    broadcast use vstd::seq_lib::group_filter_ensures;

    let keep = |trace: TraceModel| trace_answers(trace, query);
    let trace = traces[i];
    assert(traces.contains(trace));
    assert(keep(trace) == trace_answers(trace, query));
    assert forall|n: int| 0 <= n < text::words(query).len() implies trace_mentions(
        trace,
        text::ascii_lower(#[trigger] text::words(query)[n]),
    ) == ({
        let term = text::ascii_lower(text::words(query)[n]);
        ||| text::occurs(text::ascii_lower(trace.trace_id@), term)
        ||| text::occurs(text::ascii_lower(trace.root_name@), term)
        ||| exists|k: int|
            0 <= k < trace.spans.len() && {
                let span = #[trigger] trace.spans[k];
                ||| text::occurs(text::ascii_lower(span.trace_id@), term)
                ||| text::occurs(text::ascii_lower(span.span_id@), term)
                ||| span.parent_span_id is Some && text::occurs(
                    text::ascii_lower(span.parent_span_id->0@),
                    term,
                )
                ||| text::occurs(text::ascii_lower(span.name@), term)
                ||| text::occurs(text::ascii_lower(span.target@), term)
                ||| span.interest_name is Some && text::occurs(
                    text::ascii_lower(span.interest_name->0@),
                    term,
                )
                ||| span.face_id is Some && text::occurs(
                    number::signed_text(span.face_id->0 as int),
                    term,
                )
                ||| span.strategy is Some && text::occurs(
                    text::ascii_lower(span.strategy->0@),
                    term,
                )
                ||| span.status is Okay && text::occurs(text::ascii_lower("ok"@), term)
                ||| span.status is Error && text::occurs(text::ascii_lower("error"@), term)
                ||| span.status is Unset && text::occurs(text::ascii_lower("unset"@), term)
            }
    }) by {
        let term = text::ascii_lower(text::words(query)[n]);
        assert forall|k: int| 0 <= k < trace.spans.len() implies span_mentions(
            #[trigger] trace.spans[k],
            term,
        ) == ({
            let span = trace.spans[k];
            ||| text::occurs(text::ascii_lower(span.trace_id@), term)
            ||| text::occurs(text::ascii_lower(span.span_id@), term)
            ||| span.parent_span_id is Some && text::occurs(
                text::ascii_lower(span.parent_span_id->0@),
                term,
            )
            ||| text::occurs(text::ascii_lower(span.name@), term)
            ||| text::occurs(text::ascii_lower(span.target@), term)
            ||| span.interest_name is Some && text::occurs(
                text::ascii_lower(span.interest_name->0@),
                term,
            )
            ||| span.face_id is Some && text::occurs(
                number::signed_text(span.face_id->0 as int),
                term,
            )
            ||| span.strategy is Some && text::occurs(text::ascii_lower(span.strategy->0@), term)
            ||| span.status is Okay && text::occurs(text::ascii_lower("ok"@), term)
            ||| span.status is Error && text::occurs(text::ascii_lower("error"@), term)
            ||| span.status is Unset && text::occurs(text::ascii_lower("unset"@), term)
        }) by {}
    }
}

/// The rows about the pending Interest table are the spans whose names begin
/// with `pit.`, in their order, each with its own values.
pub proof fn pit_rows_are_the_pit_spans(spans: Seq<SpanView>, i: int)
    ensures
        ({
            let rows = spans.filter(|span: SpanView| is_pit_span(span)).map_values(
                |span: SpanView| fanout_row(span),
            );
            let own = spans.filter(
                |span: SpanView| span.name@.len() >= 4 && span.name@.take(4) == "pit."@,
            );
            &&& rows.len() == own.len()
            &&& 0 <= i < rows.len() ==> {
                &&& rows[i].span_name@ == own[i].name@
                &&& rows[i].face_id == own[i].face_id
                &&& rows[i].interest_name == own[i].interest_name
                &&& rows[i].status == own[i].status
                &&& rows[i].duration_us == own[i].duration_us
            }
        }),
{
    reveal_strlit("pit.");
    let pit = |span: SpanView| is_pit_span(span);
    let named = |span: SpanView| span.name@.len() >= 4 && span.name@.take(4) == "pit."@;
    assert forall|span: SpanView| #[trigger] pit(span) == named(span) by {
        let prefix = "pit."@;
        assert(prefix.len() == 4);
        if is_pit_span(span) {
            assert(span.name@.take(4) =~= prefix);
        }
        if span.name@.len() >= 4 && span.name@.take(4) == prefix {
            assert(prefix.is_prefix_of(span.name@)) by {
                assert(span.name@.subrange(0, 4) =~= span.name@.take(4));
            }
        }
    }
    assert(pit =~= named);
}

} // verus!
