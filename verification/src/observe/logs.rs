//! Log lines as evidence beside traces.

use vstd::prelude::*;

use crate::number;
use crate::number::decimal_signed;
use crate::observe::traces;
use crate::observe::traces::TraceView;
use crate::observe::{BridgeExportState, BridgeExportStatus, ObserveSourceState, SpanView};
use crate::text;
use crate::text::{
    ascii_lowercase, contains, contains_char, split_lines, split_words, trim_end_char,
};

verus! {

#[derive(Debug, PartialEq, Eq)]
pub struct LogEvidenceRow {
    pub seq: u64,
    pub target: String,
    pub level: String,
    pub message: String,
    pub matched_by: String,
}

impl Clone for LogEvidenceRow {
    fn clone(&self) -> (r: Self)
        ensures
            r == *self,
    {
        LogEvidenceRow {
            seq: self.seq,
            target: self.target.clone(),
            level: self.level.clone(),
            message: self.message.clone(),
            matched_by: self.matched_by.clone(),
        }
    }
}

/// What a row of evidence says.
#[verifier::ext_equal]
pub struct LogText {
    pub seq: u64,
    pub target: Seq<char>,
    pub level: Seq<char>,
    pub message: Seq<char>,
    pub matched_by: Seq<char>,
}

impl View for LogEvidenceRow {
    type V = LogText;

    open spec fn view(&self) -> LogText {
        LogText {
            seq: self.seq,
            target: self.target@,
            level: self.level@,
            message: self.message@,
            matched_by: self.matched_by@,
        }
    }
}

/// What rows of evidence say.
pub open spec fn log_texts(rows: Seq<LogEvidenceRow>) -> Seq<LogText> {
    rows.map_values(|row: LogEvidenceRow| row@)
}

/// A copy of a list of rows.
pub fn copy_logs(rows: &Vec<LogEvidenceRow>) -> (r: Vec<LogEvidenceRow>)
    ensures
        r@ == rows@,
{
    let mut out: Vec<LogEvidenceRow> = Vec::new();
    let mut i: usize = 0;
    while i < rows.len()
        invariant
            i <= rows@.len(),
            out@ == rows@.take(i as int),
        decreases rows@.len() - i,
    {
        out.push(rows[i].clone());
        i = i + 1;
        assert(out@ =~= rows@.take(i as int));
    }
    assert(rows@.take(i as int) =~= rows@);
    out
}

// ---------------------------------------------------------------------------
// Log lines
// ---------------------------------------------------------------------------

/// The level that a line names, `log` where it names none.
pub open spec fn level_of(line: Seq<char>) -> Seq<char> {
    if text::occurs(line, "TRACE"@) {
        "trace"@
    } else if text::occurs(line, "DEBUG"@) {
        "debug"@
    } else if text::occurs(line, "INFO"@) {
        "info"@
    } else if text::occurs(line, "WARN"@) {
        "warn"@
    } else if text::occurs(line, "ERROR"@) {
        "error"@
    } else {
        "log"@
    }
}

/// A word that names where a line comes from: dotted, with a colon at its end.
pub open spec fn names_target(word: Seq<char>) -> bool {
    word.len() > 0 && word.last() == ':' && word.contains('.')
}

/// The first word that names a target, without its colons.
pub open spec fn first_target(words: Seq<Seq<char>>) -> Option<Seq<char>>
    decreases words.len(),
{
    if words.len() == 0 {
        None
    } else if names_target(words[0]) {
        Some(text::trim_end_char_spec(words[0], ':'))
    } else {
        first_target(words.drop_first())
    }
}

/// The target that a line names, `runtime` where it names none.
pub open spec fn target_of(line: Seq<char>) -> Seq<char> {
    match first_target(text::words(line)) {
        Some(target) => target,
        None => "runtime"@,
    }
}

/// The evidence that a log line gives.
pub open spec fn evidence_of(seq: u64, line: Seq<char>) -> LogText {
    LogText {
        seq,
        target: target_of(line),
        level: level_of(line),
        message: line,
        matched_by: seq![],
    }
}

fn line_level(line: &str) -> (r: String)
    ensures
        r@ == level_of(line@),
{
    let level = if contains(line, "TRACE") {
        "trace"
    } else if contains(line, "DEBUG") {
        "debug"
    } else if contains(line, "INFO") {
        "info"
    } else if contains(line, "WARN") {
        "warn"
    } else if contains(line, "ERROR") {
        "error"
    } else {
        "log"
    };
    level.to_string()
}

fn line_target(line: &str) -> (r: String)
    ensures
        r@ == target_of(line@),
{
    let words = split_words(line);
    let mut i: usize = 0;
    assert(text::words(line@).skip(0) =~= text::words(line@));
    while i < words.len()
        invariant
            i <= words@.len(),
            text::texts(words@) == text::words(line@),
            first_target(text::words(line@)) == first_target(text::words(line@).skip(i as int)),
        decreases words@.len() - i,
    {
        let word = words[i];
        let ghost rest = text::words(line@).skip(i as int);
        assert(rest[0] == word@);
        let len: usize = word.unicode_len();
        if len > 0 && word.get_char(len - 1) == ':' && contains_char(word, '.') {
            return trim_end_char(word, ':').to_string();
        }
        assert(rest.drop_first() =~= text::words(line@).skip(i + 1));
        i = i + 1;
    }
    assert(text::words(line@).skip(i as int) =~= seq![]);
    "runtime".to_string()
}

/// One row for each line behind the first, numbered from 1.
pub fn parse_recent_log_response(body: &str) -> (r: Vec<LogEvidenceRow>)
    ensures
        r@.len() == (if text::lines_of(body@).len() == 0 {
            0
        } else {
            text::lines_of(body@).len() - 1
        }),
        forall|i: int|
            0 <= i < r@.len() ==> (#[trigger] r@[i])@ == evidence_of(
                (i + 1) as u64,
                text::lines_of(body@)[i + 1],
            ),
{
    let lines = split_lines(body);
    let mut rows: Vec<LogEvidenceRow> = Vec::new();
    let mut i: usize = 1;
    while i < lines.len()
        invariant
            1 <= i,
            text::texts(lines@) == text::lines_of(body@),
            rows@.len() == i - 1,
            lines@.len() == 0 ==> i == 1,
            lines@.len() > 0 ==> i <= lines@.len(),
            forall|k: int|
                0 <= k < rows@.len() ==> (#[trigger] rows@[k])@ == evidence_of(
                    (k + 1) as u64,
                    text::lines_of(body@)[k + 1],
                ),
        decreases lines@.len() - i,
    {
        let line = lines[i];
        assert(text::lines_of(body@)[i as int] == line@);
        let row = LogEvidenceRow {
            seq: i as u64,
            target: line_target(line),
            level: line_level(line),
            message: line.to_string(),
            matched_by: String::new(),
        };
        assert(row@ =~= evidence_of(i as u64, line@));
        rows.push(row);
        i = i + 1;
    }
    rows
}

// ---------------------------------------------------------------------------
// Logs beside a trace
// ---------------------------------------------------------------------------

/// A text to look for, and what it is.
pub struct Needle {
    pub label: Seq<char>,
    pub value: Seq<char>,
}

/// A needle for a text, whose ASCII letters are taken as lower case.
pub open spec fn needle(label: Seq<char>, value: Seq<char>) -> Needle {
    Needle { label, value: text::ascii_lower(value) }
}

/// A needle where there is a text.
pub open spec fn opt_needle(label: Seq<char>, value: Option<String>) -> Seq<Needle> {
    match value {
        Some(inner) => seq![needle(label, inner@)],
        None => seq![],
    }
}

/// A needle where there is a face.
pub open spec fn face_needle(face_id: Option<i64>) -> Seq<Needle> {
    match face_id {
        Some(face) => seq![needle("face"@, number::signed_text(face as int))],
        None => seq![],
    }
}

/// What to look for of a span.
pub open spec fn span_needles(span: SpanView) -> Seq<Needle> {
    seq![
        needle("span id"@, span.span_id@),
        needle("span name"@, span.name@),
        needle("target"@, span.target@),
    ] + opt_needle("Interest"@, span.interest_name) + face_needle(span.face_id) + opt_needle(
        "strategy"@,
        span.strategy,
    )
}

/// What to look for of all spans, one after another.
pub open spec fn spans_needles(spans: Seq<SpanView>) -> Seq<Needle>
    decreases spans.len(),
{
    if spans.len() == 0 {
        seq![]
    } else {
        spans_needles(spans.drop_last()) + span_needles(spans.last())
    }
}

/// What to look for of a trace: its id, its root, and its spans.
pub open spec fn trace_needles(trace: traces::TraceModel) -> Seq<Needle> {
    seq![
        needle("trace id"@, trace.trace_id@),
        needle("root span"@, trace.root_name@),
    ] + spans_needles(trace.spans)
}

/// The text of a row that is searched: target, level, and message in lower case.
pub open spec fn haystack(row: LogText) -> Seq<char> {
    text::ascii_lower(row.target) + " "@ + text::ascii_lower(row.level) + " "@ + text::ascii_lower(
        row.message,
    )
}

/// The label of the first needle that is not empty and occurs.
pub open spec fn first_hit(hay: Seq<char>, needles: Seq<Needle>) -> Option<Seq<char>>
    decreases needles.len(),
{
    if needles.len() == 0 {
        None
    } else if needles[0].value.len() > 0 && text::occurs(hay, needles[0].value) {
        Some(needles[0].label)
    } else {
        first_hit(hay, needles.drop_first())
    }
}

/// The row, marked with what it was found by.
pub open spec fn found(row: LogText, needles: Seq<Needle>) -> Option<LogText> {
    match first_hit(haystack(row), needles) {
        Some(label) => Some(LogText { matched_by: label, ..row }),
        None => None,
    }
}

/// The rows in which something of a trace occurs, at most eight.
pub open spec fn correlated(rows: Seq<LogText>, needles: Seq<Needle>) -> Seq<LogText> {
    let hits = rows.filter_map(|row: LogText| found(row, needles));
    if hits.len() > 8 {
        hits.take(8)
    } else {
        hits
    }
}

struct LogNeedle {
    label: String,
    value: String,
}

impl LogNeedle {
    fn new(label: &str, value: &str) -> (r: Self)
        ensures
            r.says() == needle(label@, value@),
    {
        LogNeedle { label: label.to_string(), value: ascii_lowercase(value) }
    }

    spec fn says(self) -> Needle {
        Needle { label: self.label@, value: self.value@ }
    }
}

spec fn needle_texts(needles: Seq<LogNeedle>) -> Seq<Needle> {
    needles.map_values(|needle: LogNeedle| needle.says())
}

fn push_needle(needles: &mut Vec<LogNeedle>, label: &str, value: &str)
    ensures
        needle_texts(final(needles)@) == needle_texts(old(needles)@) + seq![needle(label@, value@)],
{
    let ghost before = needles@;
    needles.push(LogNeedle::new(label, value));
    assert(needle_texts(needles@) =~= needle_texts(before) + seq![needle(label@, value@)]);
}

fn push_opt_needle(needles: &mut Vec<LogNeedle>, label: &str, value: &Option<String>)
    ensures
        needle_texts(final(needles)@) == needle_texts(old(needles)@) + opt_needle(label@, *value),
{
    match value {
        Some(inner) => push_needle(needles, label, inner.as_str()),
        None => {
            assert(needle_texts(needles@) + opt_needle(label@, *value) =~= needle_texts(needles@));
        },
    }
}

fn push_span_needles(needles: &mut Vec<LogNeedle>, span: &SpanView)
    ensures
        needle_texts(final(needles)@) == needle_texts(old(needles)@) + span_needles(*span),
{
    let ghost before = needle_texts(needles@);
    push_needle(needles, "span id", span.span_id.as_str());
    push_needle(needles, "span name", span.name.as_str());
    push_needle(needles, "target", span.target.as_str());
    push_opt_needle(needles, "Interest", &span.interest_name);
    if let Some(face) = span.face_id {
        push_needle(needles, "face", decimal_signed(face).as_str());
    }
    push_opt_needle(needles, "strategy", &span.strategy);
    assert(needle_texts(needles@) =~= before + span_needles(*span));
}

fn trace_log_needles(trace: &TraceView) -> (r: Vec<LogNeedle>)
    ensures
        needle_texts(r@) == trace_needles(trace@),
{
    let mut needles: Vec<LogNeedle> = Vec::new();
    push_needle(&mut needles, "trace id", trace.trace_id.as_str());
    push_needle(&mut needles, "root span", trace.root_name.as_str());
    let ghost head = seq![
        needle("trace id"@, trace.trace_id@),
        needle("root span"@, trace.root_name@),
    ];
    let mut i: usize = 0;
    assert(needle_texts(needles@) =~= head + spans_needles(trace.spans@.take(0)));
    while i < trace.spans.len()
        invariant
            i <= trace.spans@.len(),
            needle_texts(needles@) == head + spans_needles(trace.spans@.take(i as int)),
        decreases trace.spans@.len() - i,
    {
        let ghost before = needle_texts(needles@);
        push_span_needles(&mut needles, &trace.spans[i]);
        proof {
            let next = trace.spans@.take(i + 1);
            assert(next.drop_last() =~= trace.spans@.take(i as int));
            assert(next.last() == trace.spans@[i as int]);
            assert(before + span_needles(trace.spans@[i as int]) =~= head + spans_needles(next));
        }
        i = i + 1;
    }
    assert(trace.spans@.take(i as int) =~= trace.spans@);
    needles
}

fn find_needle(hay: &str, needles: &Vec<LogNeedle>) -> (r: Option<String>)
    ensures
        text::opt_text(r) == first_hit(hay@, needle_texts(needles@)),
{
    let ghost all = needle_texts(needles@);
    let mut i: usize = 0;
    assert(all.skip(0) =~= all);
    while i < needles.len()
        invariant
            i <= needles@.len(),
            all == needle_texts(needles@),
            first_hit(hay@, all) == first_hit(hay@, all.skip(i as int)),
        decreases needles@.len() - i,
    {
        assert(all.skip(i as int)[0] == needles@[i as int].says());
        let value = needles[i].value.as_str();
        if !value.is_empty() && contains(hay, value) {
            return Some(needles[i].label.clone());
        }
        assert(all.skip(i as int).drop_first() =~= all.skip(i + 1));
        i = i + 1;
    }
    assert(all.skip(i as int) =~= seq![]);
    None
}

pub fn correlated_logs_for_trace(trace: &TraceView, logs: &[LogEvidenceRow]) -> (r: Vec<
    LogEvidenceRow,
>)
    ensures
        log_texts(r@) == correlated(log_texts(logs@), trace_needles(trace@)),
{
    let needles = trace_log_needles(trace);
    let ghost look = |row: LogText| found(row, trace_needles(trace@));
    let ghost rows = log_texts(logs@);
    let mut out: Vec<LogEvidenceRow> = Vec::new();
    let mut i: usize = 0;
    assert(log_texts(out@) =~= rows.take(0).filter_map(look));
    while i < logs.len()
        invariant
            i <= logs@.len(),
            rows == log_texts(logs@),
            needle_texts(needles@) == trace_needles(trace@),
            look == (|row: LogText| found(row, trace_needles(trace@))),
            log_texts(out@) == rows.take(i as int).filter_map(look),
        decreases logs@.len() - i,
    {
        let row = &logs[i];
        let hay = ascii_lowercase(row.target.as_str()).concat(" ").concat(
            ascii_lowercase(row.level.as_str()).as_str(),
        ).concat(" ").concat(ascii_lowercase(row.message.as_str()).as_str());
        let hit = find_needle(hay.as_str(), &needles);
        let ghost before = log_texts(out@);
        proof {
            assert(rows.take(i + 1).drop_last() =~= rows.take(i as int));
            assert(rows.take(i + 1).last() == row@);
        }
        if let Some(label) = hit {
            let mut row = logs[i].clone();
            row.matched_by = label;
            assert(Some(row@) == look(logs@[i as int]@));
            let ghost added = row@;
            out.push(row);
            assert(log_texts(out@) =~= before + seq![added]);
        }
        i = i + 1;
    }
    assert(rows.take(i as int) =~= rows);
    let ghost hits = log_texts(out@);
    let ghost rows_found = out@;
    out.truncate(8);
    assert(log_texts(out@) =~= if hits.len() > 8 {
        hits.take(8)
    } else {
        hits
    });
    out
}

/// Rows beside a trace are rows of the log, marked with what they were found
/// by, and never more than eight.
pub proof fn correlated_rows_come_from_the_log(rows: Seq<LogText>, needles: Seq<Needle>, i: int)
    requires
        0 <= i < correlated(rows, needles).len(),
    ensures
        correlated(rows, needles).len() <= 8,
        exists|k: int|
            0 <= k < rows.len() && found(#[trigger] rows[k], needles) == Some(
                correlated(rows, needles)[i],
            ),
{
    let look = |row: LogText| found(row, needles);
    let hits = rows.filter_map(look);
    let hit = correlated(rows, needles)[i];
    assert(hits[i] == hit);
    rows.lemma_filter_map_contains(look, hit);
    assert(hits.contains(hit));
    let k = choose|k: int| 0 <= k < rows.len() && look(#[trigger] rows[k]) == Some(hit);
    assert(found(rows[k], needles) == Some(hit));
}

// ---------------------------------------------------------------------------
// Bridge export
// ---------------------------------------------------------------------------

/// The row is about the bridge.
pub open spec fn about_bridge(row: LogEvidenceRow) -> bool {
    text::occurs(row.message@, "ndn-otel-bridge"@)
}

/// The row reports an error of the bridge.
pub open spec fn bridge_failure(row: LogEvidenceRow) -> bool {
    about_bridge(row) && text::occurs(text::ascii_lower(row.message@), "error"@)
}

/// The bridge status that logs give evidence of.
pub open spec fn is_bridge_status(
    status: BridgeExportStatus,
    logs: Seq<LogEvidenceRow>,
    source: ObserveSourceState,
) -> bool {
    if source is Unsupported || source is Disabled || source is Error {
        status.is(
            BridgeExportState::Unavailable,
            "NDN-native span publishing is not available for bridge export."@,
        )
    } else if exists|i: int| 0 <= i < logs.len() && bridge_failure(#[trigger] logs[i]) {
        status.is(BridgeExportState::Error, "Recent logs mention ndn-otel-bridge errors."@)
    } else if exists|i: int| 0 <= i < logs.len() && about_bridge(#[trigger] logs[i]) {
        status.is(BridgeExportState::Ready, "Recent logs mention ndn-otel-bridge activity."@)
    } else {
        status.is(
            BridgeExportState::NotAttached,
            "No ndn-otel-bridge activity was observed in recent forwarder logs."@,
        )
    }
}

pub fn bridge_status_from_logs(logs: &[LogEvidenceRow], source: ObserveSourceState) -> (r:
    BridgeExportStatus)
    ensures
        is_bridge_status(r, logs@, source),
{
    if matches!(
        source,
        ObserveSourceState::Unsupported | ObserveSourceState::Disabled | ObserveSourceState::Error
    ) {
        return BridgeExportStatus::new(
            BridgeExportState::Unavailable,
            "NDN-native span publishing is not available for bridge export.",
        );
    }
    let mut active = false;
    let mut failing = false;
    let mut i: usize = 0;
    while i < logs.len()
        invariant
            i <= logs@.len(),
            active == exists|j: int| 0 <= j < i && about_bridge(#[trigger] logs@[j]),
            failing == exists|j: int| 0 <= j < i && bridge_failure(#[trigger] logs@[j]),
        decreases logs@.len() - i,
    {
        if contains(logs[i].message.as_str(), "ndn-otel-bridge") {
            assert(about_bridge(logs@[i as int]));
            active = true;
            if contains(ascii_lowercase(logs[i].message.as_str()).as_str(), "error") {
                assert(bridge_failure(logs@[i as int]));
                failing = true;
            }
        }
        i = i + 1;
    }
    if failing {
        return BridgeExportStatus::new(
            BridgeExportState::Error,
            "Recent logs mention ndn-otel-bridge errors.",
        );
    }
    if active {
        return BridgeExportStatus::new(
            BridgeExportState::Ready,
            "Recent logs mention ndn-otel-bridge activity.",
        );
    }
    BridgeExportStatus::new(
        BridgeExportState::NotAttached,
        "No ndn-otel-bridge activity was observed in recent forwarder logs.",
    )
}

// ---------------------------------------------------------------------------
// Laws
// ---------------------------------------------------------------------------

/// A row of the log says what its line says: the number and the whole line are
/// kept, and nothing has matched yet.
pub proof fn log_rows_keep_their_lines(seq: u64, line: Seq<char>)
    ensures
        evidence_of(seq, line).seq == seq,
        evidence_of(seq, line).message == line,
        evidence_of(seq, line).matched_by.len() == 0,
{
}

/// The level of a line is one that it names, and `log` only where it names none.
/// Of several the finest counts.
pub proof fn levels_are_read_off_the_line(line: Seq<char>)
    ensures
        ({
            let level = evidence_of(0, line).level;
            let traces = text::occurs(line, "TRACE"@);
            let debugs = text::occurs(line, "DEBUG"@);
            let infos = text::occurs(line, "INFO"@);
            let warns = text::occurs(line, "WARN"@);
            let errors = text::occurs(line, "ERROR"@);
            &&& traces ==> level == "trace"@
            &&& !traces && debugs ==> level == "debug"@
            &&& !traces && !debugs && infos ==> level == "info"@
            &&& !traces && !debugs && !infos && warns ==> level == "warn"@
            &&& !traces && !debugs && !infos && !warns && errors ==> level == "error"@
            &&& !traces && !debugs && !infos && !warns && !errors ==> level == "log"@
        }),
{
}

proof fn lemma_first_target(words: Seq<Seq<char>>, k: int)
    requires
        0 <= k <= words.len(),
        forall|j: int| 0 <= j < k ==> !names_target(#[trigger] words[j]),
        k < words.len() ==> names_target(words[k]),
    ensures
        first_target(words) == (if k < words.len() {
            Some(text::trim_end_char_spec(words[k], ':'))
        } else {
            None
        }),
    decreases k,
{
    if k > 0 {
        let rest = words.drop_first();
        assert(!names_target(words[0]));
        assert forall|j: int| 0 <= j < k - 1 implies !names_target(#[trigger] rest[j]) by {
            assert(rest[j] == words[j + 1]);
        }
        lemma_first_target(rest, k - 1);
    }
}

/// The target of a line is its first dotted word that ends with a colon,
/// without the colons at its end; without such a word it is `runtime`.
pub proof fn targets_are_read_off_the_line(line: Seq<char>, k: int)
    requires
        0 <= k <= text::words(line).len(),
        forall|j: int|
            0 <= j < k ==> !((#[trigger] text::words(line)[j]).len() > 0 && text::words(
                line,
            )[j].last() == ':' && text::words(line)[j].contains('.')),
        k < text::words(line).len() ==> text::words(line)[k].len() > 0 && text::words(line)[k].last()
            == ':' && text::words(line)[k].contains('.'),
    ensures
        k < text::words(line).len() ==> evidence_of(0, line).target == text::trim_end_char_spec(
            text::words(line)[k],
            ':',
        ),
        k == text::words(line).len() ==> evidence_of(0, line).target == "runtime"@,
{
    assert forall|j: int| 0 <= j < k implies !names_target(#[trigger] text::words(line)[j]) by {}
    lemma_first_target(text::words(line), k);
}

proof fn lemma_first_hit(hay: Seq<char>, needles: Seq<Needle>, k: int)
    requires
        0 <= k <= needles.len(),
        forall|j: int|
            0 <= j < k ==> (#[trigger] needles[j]).value.len() == 0 || !text::occurs(
                hay,
                needles[j].value,
            ),
        k < needles.len() ==> needles[k].value.len() > 0 && text::occurs(hay, needles[k].value),
    ensures
        first_hit(hay, needles) == (if k < needles.len() {
            Some(needles[k].label)
        } else {
            None
        }),
    decreases k,
{
    if k > 0 {
        let rest = needles.drop_first();
        assert(needles[0].value.len() == 0 || !text::occurs(hay, needles[0].value));
        assert forall|j: int| 0 <= j < k - 1 implies (#[trigger] rest[j]).value.len() == 0
            || !text::occurs(hay, rest[j].value) by {
            assert(rest[j] == needles[j + 1]);
        }
        lemma_first_hit(hay, rest, k - 1);
    }
}

proof fn lemma_some_hit(hay: Seq<char>, needles: Seq<Needle>) -> (k: int)
    ensures
        0 <= k <= needles.len(),
        k < needles.len() <==> first_hit(hay, needles) is Some,
        k < needles.len() ==> first_hit(hay, needles) == Some(needles[k].label)
            && needles[k].value.len() > 0 && text::occurs(hay, needles[k].value),
        forall|j: int|
            0 <= j < k ==> (#[trigger] needles[j]).value.len() == 0 || !text::occurs(
                hay,
                needles[j].value,
            ),
    decreases needles.len(),
{
    if needles.len() == 0 {
        0
    } else if needles[0].value.len() > 0 && text::occurs(hay, needles[0].value) {
        0
    } else {
        let rest = needles.drop_first();
        let k = lemma_some_hit(hay, rest);
        assert forall|j: int| 0 <= j < k + 1 implies (#[trigger] needles[j]).value.len() == 0
            || !text::occurs(hay, needles[j].value) by {
            if j > 0 {
                assert(rest[j - 1] == needles[j]);
            }
        }
        k + 1
    }
}

/// What a span can be found by, with the name under which it is shown.
pub open spec fn is_clue(span: SpanView, label: Seq<char>, value: Seq<char>) -> bool {
    ||| label == "span id"@ && value == span.span_id@
    ||| label == "span name"@ && value == span.name@
    ||| label == "target"@ && value == span.target@
    ||| label == "Interest"@ && span.interest_name is Some && value == span.interest_name->0@
    ||| label == "face"@ && span.face_id is Some && value == number::signed_text(
        span.face_id->0 as int,
    )
    ||| label == "strategy"@ && span.strategy is Some && value == span.strategy->0@
}

/// What a trace can be found by, with the name under which it is shown.
pub open spec fn is_trace_clue(
    trace: traces::TraceModel,
    label: Seq<char>,
    value: Seq<char>,
) -> bool {
    ||| label == "trace id"@ && value == trace.trace_id@
    ||| label == "root span"@ && value == trace.root_name@
    ||| exists|i: int| 0 <= i < trace.spans.len() && is_clue(#[trigger] trace.spans[i], label, value)
}

proof fn lemma_needle_is_clue(span: SpanView, k: int) -> (value: Seq<char>)
    requires
        0 <= k < span_needles(span).len(),
    ensures
        span_needles(span)[k] == needle(span_needles(span)[k].label, value),
        is_clue(span, span_needles(span)[k].label, value),
{
    let interest = opt_needle("Interest"@, span.interest_name);
    let face = face_needle(span.face_id);
    if k == 0 {
        span.span_id@
    } else if k == 1 {
        span.name@
    } else if k == 2 {
        span.target@
    } else if k < 3 + interest.len() {
        span.interest_name->0@
    } else if k < 3 + interest.len() + face.len() {
        number::signed_text(span.face_id->0 as int)
    } else {
        span.strategy->0@
    }
}

proof fn lemma_clue_is_needle(span: SpanView, label: Seq<char>, value: Seq<char>) -> (k: int)
    requires
        is_clue(span, label, value),
    ensures
        0 <= k < span_needles(span).len(),
        span_needles(span)[k] == needle(label, value),
{
    let interest = opt_needle("Interest"@, span.interest_name);
    let face = face_needle(span.face_id);
    if label == "span id"@ && value == span.span_id@ {
        0
    } else if label == "span name"@ && value == span.name@ {
        1
    } else if label == "target"@ && value == span.target@ {
        2
    } else if label == "Interest"@ && span.interest_name is Some && value
        == span.interest_name->0@ {
        3
    } else if label == "face"@ && span.face_id is Some && value == number::signed_text(
        span.face_id->0 as int,
    ) {
        3 + interest.len() as int
    } else {
        3 + interest.len() as int + face.len() as int
    }
}

proof fn lemma_needle_of_span(spans: Seq<SpanView>, k: int) -> (found: (int, Seq<char>))
    requires
        0 <= k < spans_needles(spans).len(),
    ensures
        0 <= found.0 < spans.len(),
        spans_needles(spans)[k] == needle(spans_needles(spans)[k].label, found.1),
        is_clue(spans[found.0], spans_needles(spans)[k].label, found.1),
    decreases spans.len(),
{
    let head = spans_needles(spans.drop_last());
    let own = span_needles(spans.last());
    assert(spans_needles(spans) == head + own);
    if k < head.len() {
        let found = lemma_needle_of_span(spans.drop_last(), k);
        assert(spans[found.0] == spans.drop_last()[found.0]);
        found
    } else {
        let value = lemma_needle_is_clue(spans.last(), k - head.len());
        (spans.len() - 1, value)
    }
}

proof fn lemma_span_has_needle(
    spans: Seq<SpanView>,
    i: int,
    label: Seq<char>,
    value: Seq<char>,
) -> (k: int)
    requires
        0 <= i < spans.len(),
        is_clue(spans[i], label, value),
    ensures
        0 <= k < spans_needles(spans).len(),
        spans_needles(spans)[k] == needle(label, value),
    decreases spans.len(),
{
    let head = spans_needles(spans.drop_last());
    let own = span_needles(spans.last());
    assert(spans_needles(spans) == head + own);
    if i < spans.len() - 1 {
        assert(spans.drop_last()[i] == spans[i]);
        lemma_span_has_needle(spans.drop_last(), i, label, value)
    } else {
        head.len() + lemma_clue_is_needle(spans.last(), label, value)
    }
}

/// A row of the log that is found beside a trace mentions something of it that
/// is not empty, in its target, its level or its message, all in lower case. It
/// is marked with what that is, and otherwise unchanged.
pub proof fn found_rows_mention_the_trace(
    row: LogText,
    trace: traces::TraceModel,
    marked: LogText,
) -> (value: Seq<char>)
    requires
        found(row, trace_needles(trace)) == Some(marked),
    ensures
        marked.seq == row.seq && marked.target == row.target && marked.level == row.level
            && marked.message == row.message,
        is_trace_clue(trace, marked.matched_by, value),
        value.len() > 0,
        text::occurs(
            text::ascii_lower(row.target) + " "@ + text::ascii_lower(row.level) + " "@
                + text::ascii_lower(row.message),
            text::ascii_lower(value),
        ),
{
    let hay = haystack(row);
    let needles = trace_needles(trace);
    let tail = spans_needles(trace.spans);
    let k = lemma_some_hit(hay, needles);
    if k == 0 {
        assert(is_trace_clue(trace, needles[k].label, trace.trace_id@));
        trace.trace_id@
    } else if k == 1 {
        assert(is_trace_clue(trace, needles[k].label, trace.root_name@));
        trace.root_name@
    } else {
        assert(needles[k] == tail[k - 2]);
        let clue = lemma_needle_of_span(trace.spans, k - 2);
        assert(is_clue(trace.spans[clue.0], needles[k].label, clue.1));
        clue.1
    }
}

/// A row of the log that mentions something of a trace is found beside it, and
/// under the trace id where it mentions that.
pub proof fn mentions_of_the_trace_are_found(
    row: LogText,
    trace: traces::TraceModel,
    label: Seq<char>,
    value: Seq<char>,
)
    requires
        is_trace_clue(trace, label, value),
        value.len() > 0,
        text::occurs(
            text::ascii_lower(row.target) + " "@ + text::ascii_lower(row.level) + " "@
                + text::ascii_lower(row.message),
            text::ascii_lower(value),
        ),
    ensures
        found(row, trace_needles(trace)) is Some,
        value == trace.trace_id@ ==> (found(row, trace_needles(trace))->0).matched_by
            == "trace id"@,
{
    let hay = haystack(row);
    let needles = trace_needles(trace);
    let tail = spans_needles(trace.spans);
    let wanted = needle(label, value);
    let m = if label == "trace id"@ && value == trace.trace_id@ {
        0
    } else if label == "root span"@ && value == trace.root_name@ {
        1
    } else {
        let i = choose|i: int|
            0 <= i < trace.spans.len() && is_clue(#[trigger] trace.spans[i], label, value);
        lemma_span_has_needle(trace.spans, i, label, value) + 2
    };
    assert(needles[m] == wanted);
    assert(needles[m].value.len() == value.len());
    let k = lemma_some_hit(hay, needles);
    if k == needles.len() {
        assert(needles[m].value.len() == 0 || !text::occurs(hay, needles[m].value));
    }
    if value == trace.trace_id@ {
        assert(needles[0].value == text::ascii_lower(value));
        lemma_first_hit(hay, needles, 0);
    }
}

/// The bridge counts as unavailable where spans are not published, as failing
/// where a line about it speaks of an error, as ready where a line is about it
/// and none speaks of an error, and else as not attached.
pub proof fn bridge_state_goes_by_the_evidence(
    status: BridgeExportStatus,
    logs: Seq<LogEvidenceRow>,
    source: ObserveSourceState,
)
    requires
        is_bridge_status(status, logs, source),
    ensures
        ({
            let published = source is Live || source is Empty || source is Degraded;
            let active = exists|i: int|
                0 <= i < logs.len() && text::occurs(
                    (#[trigger] logs[i]).message@,
                    "ndn-otel-bridge"@,
                );
            let failing = exists|i: int|
                0 <= i < logs.len() && text::occurs(
                    (#[trigger] logs[i]).message@,
                    "ndn-otel-bridge"@,
                ) && text::occurs(text::ascii_lower(logs[i].message@), "error"@);
            &&& status.state is Unavailable <==> !published
            &&& status.state is Error <==> published && failing
            &&& status.state is Ready <==> published && active && !failing
            &&& status.state is NotAttached <==> published && !active
        }),
{
    if exists|i: int| 0 <= i < logs.len() && bridge_failure(#[trigger] logs[i]) {
        let i = choose|i: int| 0 <= i < logs.len() && bridge_failure(#[trigger] logs[i]);
        assert(text::occurs(logs[i].message@, "ndn-otel-bridge"@));
    }
    if exists|i: int| 0 <= i < logs.len() && about_bridge(#[trigger] logs[i]) {
        let i = choose|i: int| 0 <= i < logs.len() && about_bridge(#[trigger] logs[i]);
        assert(text::occurs(logs[i].message@, "ndn-otel-bridge"@));
    }
    if exists|i: int|
        0 <= i < logs.len() && text::occurs((#[trigger] logs[i]).message@, "ndn-otel-bridge"@) {
        let i = choose|i: int|
            0 <= i < logs.len() && text::occurs((#[trigger] logs[i]).message@, "ndn-otel-bridge"@);
        assert(about_bridge(logs[i]));
    }
    if exists|i: int|
        0 <= i < logs.len() && text::occurs((#[trigger] logs[i]).message@, "ndn-otel-bridge"@)
            && text::occurs(text::ascii_lower(logs[i].message@), "error"@) {
        let i = choose|i: int|
            0 <= i < logs.len() && text::occurs((#[trigger] logs[i]).message@, "ndn-otel-bridge"@)
                && text::occurs(text::ascii_lower(logs[i].message@), "error"@);
        assert(bridge_failure(logs[i]));
    }
}

} // verus!
