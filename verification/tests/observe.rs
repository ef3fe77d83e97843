use ndn_dashboard_next::model::{fixtures, FeatureState, ObservePosture, PlatformKind};
use ndn_dashboard_next::observe::{
    bridge_status_from_logs, correlated_logs_for_trace, decode_otlp_span, desktop_observe_summary,
    filter_traces, group_spans, mock_trace, parse_recent_listing, parse_recent_log_response,
    pit_fanout_rows, plan_observe, recent_listing_name, span_data_name, span_tree_rows,
    spans_to_fetch, take_span, BridgeExportState, DecodeError, LogEvidenceRow, ObserveFetchError,
    ObservePlan, ObserveSourceState, RecentSpanRef, SpanStatus, SpanView,
};

use bytes::Bytes;

fn encode_len(out: &mut Vec<u8>, field: u64, payload: &[u8]) {
    out.push(((field << 3) | 2) as u8);
    out.push(payload.len() as u8);
    out.extend_from_slice(payload);
}

fn encode_fixed64(out: &mut Vec<u8>, field: u64, value: u64) {
    out.push(((field << 3) | 1) as u8);
    out.extend_from_slice(&value.to_le_bytes());
}

fn attr(key: &str, value: &str) -> Bytes {
    let mut any = Vec::new();
    encode_len(&mut any, 1, value.as_bytes());
    let mut out = Vec::new();
    encode_len(&mut out, 1, key.as_bytes());
    encode_len(&mut out, 2, &any);
    Bytes::from(out)
}

#[test]
fn decode_minimal_otlp_span() {
    let mut span = Vec::new();
    encode_len(&mut span, 1, &[0x11; 16]);
    encode_len(&mut span, 2, &[0x22; 8]);
    encode_len(&mut span, 5, b"interest");
    encode_fixed64(&mut span, 7, 1_000);
    encode_fixed64(&mut span, 8, 11_000);
    encode_len(&mut span, 9, &attr("interest.name", "/a/b"));
    encode_len(&mut span, 9, &attr("ndn.target", "fwd.pipeline"));
    let decoded = decode_otlp_span(&span).expect("decode");
    assert_eq!(decoded.trace_id, "11111111111111111111111111111111");
    assert_eq!(decoded.span_id, "2222222222222222");
    assert_eq!(decoded.interest_name.as_deref(), Some("/a/b"));
    assert_eq!(decoded.duration_us, 10);
}

#[test]
fn grouping_marks_pit_fanout() {
    let trace = mock_trace();
    assert!(trace.has_pit_fanout);
    assert_eq!(trace.span_count, 2);
}

#[test]
fn parses_recent_span_listing() {
    let refs = parse_recent_listing(
        b"11111111111111111111111111111111/2222222222222222\n33333333333333333333333333333333/4444444444444444\n",
    )
    .expect("recent listing");
    assert_eq!(refs.len(), 2);
    assert_eq!(refs[0].trace_id, "11111111111111111111111111111111");
    assert_eq!(refs[0].span_id, "2222222222222222");
}

#[test]
fn rejects_malformed_recent_span_listing() {
    assert_eq!(
        parse_recent_listing(b"not-a-trace").unwrap_err(),
        ObserveFetchError::MalformedRecent
    );
    assert_eq!(
        parse_recent_listing(b"11111111111111111111111111111111/nothex").unwrap_err(),
        ObserveFetchError::MalformedRecent
    );
}

#[test]
fn builds_span_data_name_from_recent_ref() {
    let span_ref = RecentSpanRef::new("11111111111111111111111111111111", "2222222222222222");
    assert_eq!(
        span_data_name("/localhost/nfd/observability/", &span_ref),
        "/localhost/nfd/observability/traces/11111111111111111111111111111111/spans/2222222222222222"
    );
}

#[test]
fn filters_traces_by_all_operator_fields() {
    let trace = mock_trace();
    let traces = vec![trace.clone()];
    for query in [
        "aaaaaaaa",
        "interest",
        "fwd.pit",
        "11",
        "best-route",
        "ok",
        "/demo/video",
    ] {
        let filtered = filter_traces(&traces, query);
        assert_eq!(filtered, vec![trace.clone()], "query {query}");
    }
}

#[test]
fn filters_traces_by_all_query_terms() {
    let trace = mock_trace();
    let traces = vec![trace.clone()];
    assert_eq!(filter_traces(&traces, "best-route ok"), vec![trace]);
    assert!(filter_traces(&traces, "best-route error").is_empty());
    assert!(filter_traces(&traces, "missing").is_empty());
}

#[test]
fn builds_parent_child_span_tree_rows() {
    let trace = mock_trace();
    let rows = span_tree_rows(&trace);
    assert_eq!(rows.len(), 2);
    assert_eq!(rows[0].span.name, "interest");
    assert_eq!(rows[0].depth, 0);
    assert_eq!(rows[0].child_count, 1);
    assert_eq!(rows[1].span.name, "pit.satisfy");
    assert_eq!(rows[1].depth, 1);
    assert!(!rows[1].orphaned_parent);
}

#[test]
fn span_tree_marks_missing_parents_as_orphaned_roots() {
    let mut trace = mock_trace();
    trace.spans[1].parent_span_id = Some("missing-parent".into());
    let rows = span_tree_rows(&trace);
    let orphan = rows
        .iter()
        .find(|row| row.span.name == "pit.satisfy")
        .expect("pit row");
    assert_eq!(orphan.depth, 0);
    assert!(orphan.orphaned_parent);
}

#[test]
fn extracts_pit_fanout_rows() {
    let trace = mock_trace();
    let rows = pit_fanout_rows(&trace);
    assert_eq!(rows.len(), 1);
    assert_eq!(rows[0].span_name, "pit.satisfy");
    assert_eq!(rows[0].face_id, Some(11));
    assert_eq!(rows[0].status, SpanStatus::Okay);
}

#[test]
fn parses_recent_log_response_into_evidence_rows() {
    let rows = parse_recent_log_response(
        "42\n2026-05-28T00:00:00Z  INFO fwd.pipeline: received /demo/video/keyframe",
    );
    assert_eq!(rows.len(), 1);
    assert_eq!(rows[0].seq, 1);
    assert_eq!(rows[0].level, "info");
    assert_eq!(rows[0].target, "fwd.pipeline");
}

#[test]
fn correlates_logs_under_selected_trace() {
    let trace = mock_trace();
    let logs = vec![
        LogEvidenceRow {
            seq: 1,
            target: "fwd.pipeline".into(),
            level: "info".into(),
            message: "received /demo/video/keyframe".into(),
            matched_by: String::new(),
        },
        LogEvidenceRow {
            seq: 2,
            target: "other".into(),
            level: "info".into(),
            message: "unrelated".into(),
            matched_by: String::new(),
        },
    ];
    let rows = correlated_logs_for_trace(&trace, &logs);
    assert_eq!(rows.len(), 1);
    assert_eq!(rows[0].seq, 1);
    assert!(!rows[0].matched_by.is_empty());
}

#[test]
fn bridge_status_uses_recent_log_evidence() {
    let logs = vec![LogEvidenceRow {
        seq: 7,
        target: "bridge".into(),
        level: "info".into(),
        message: "ndn-otel-bridge starting".into(),
        matched_by: String::new(),
    }];
    assert_eq!(
        bridge_status_from_logs(&logs, ObserveSourceState::Live).state,
        BridgeExportState::Ready
    );
    assert_eq!(
        bridge_status_from_logs(&[], ObserveSourceState::Disabled).state,
        BridgeExportState::Unavailable
    );
}

fn attr_number(key: &str, field: u64, value: u8) -> Vec<u8> {
    let any = vec![(field << 3) as u8, value];
    let mut out = Vec::new();
    encode_len(&mut out, 1, key.as_bytes());
    encode_len(&mut out, 2, &any);
    out
}

fn minimal_span() -> Vec<u8> {
    let mut span = Vec::new();
    encode_len(&mut span, 1, &[0x11; 16]);
    encode_len(&mut span, 2, &[0x22; 8]);
    encode_len(&mut span, 5, b"interest");
    span
}

#[test]
fn spans_carry_numbers_statuses_and_parents() {
    let mut span = minimal_span();
    encode_len(&mut span, 4, &[0x33; 8]);
    encode_len(&mut span, 9, &attr_number("face.id", 3, 7));
    encode_len(&mut span, 9, &attr("strategy.name", "best-route"));
    encode_len(&mut span, 15, &[3 << 3, 2]);
    span.extend_from_slice(&[6 << 3, 1]);
    let decoded = decode_otlp_span(&span).expect("decode");
    assert_eq!(decoded.parent_span_id.as_deref(), Some("3333333333333333"));
    assert_eq!(decoded.face_id, Some(7));
    assert_eq!(decoded.strategy.as_deref(), Some("best-route"));
    assert_eq!(decoded.status, SpanStatus::Error);
    assert_eq!(decoded.duration_us, 0);
}

#[test]
fn span_text_that_is_no_utf8_is_replaced() {
    let mut span = Vec::new();
    encode_len(&mut span, 1, &[0x11; 16]);
    encode_len(&mut span, 2, &[0x22; 8]);
    encode_len(&mut span, 5, &[b'a', 0xff, b'b']);
    assert_eq!(
        decode_otlp_span(&span).expect("decode").name,
        "a\u{FFFD}b"
    );
    let mut span = Vec::new();
    encode_len(&mut span, 1, &[0x11; 16]);
    encode_len(&mut span, 2, &[0x22; 8]);
    encode_len(&mut span, 5, "caf\u{00E9}".as_bytes());
    assert_eq!(
        decode_otlp_span(&span).expect("decode").name,
        "caf\u{00E9}"
    );
}

#[test]
fn broken_spans_are_refused() {
    assert_eq!(
        decode_otlp_span(&[]),
        Err(DecodeError::MissingField("trace_id"))
    );
    let mut span = Vec::new();
    encode_len(&mut span, 1, &[0x11; 16]);
    assert_eq!(
        decode_otlp_span(&span),
        Err(DecodeError::MissingField("span_id"))
    );
    encode_len(&mut span, 2, &[0x22; 8]);
    assert_eq!(
        decode_otlp_span(&span),
        Err(DecodeError::MissingField("name"))
    );
    assert_eq!(decode_otlp_span(&[0x0a, 5, 1]), Err(DecodeError::Malformed));
    assert_eq!(decode_otlp_span(&[0x0d]), Err(DecodeError::Malformed));
    assert_eq!(
        decode_otlp_span(&[0x80, 0x80, 0x80, 0x80, 0x80, 0x80, 0x80, 0x80, 0x80, 0x80, 0x01]),
        Err(DecodeError::Malformed)
    );
    assert_eq!(
        DecodeError::MissingField("name").message(),
        "missing OTLP span field name"
    );
    assert_eq!(DecodeError::Malformed.message(), "malformed protobuf");
}

#[test]
fn recent_listings_must_be_utf8() {
    assert_eq!(
        parse_recent_listing(&[0xff]).unwrap_err(),
        ObserveFetchError::MalformedRecent
    );
    assert!(parse_recent_listing(b"\n  \n").expect("blank lines").is_empty());
    assert_eq!(
        recent_listing_name("/localhost/nfd/observability"),
        "/localhost/nfd/observability/recent"
    );
}

#[test]
fn at_most_sixteen_spans_are_fetched() {
    let line = "11111111111111111111111111111111/2222222222222222\n";
    let refs = spans_to_fetch(Some(line.repeat(20).as_bytes())).expect("refs");
    assert_eq!(refs.len(), 16);
    assert!(spans_to_fetch(None).expect("nothing").is_empty());
    let mut spans: Vec<SpanView> = Vec::new();
    take_span(&mut spans, None).expect("skipped");
    assert!(spans.is_empty());
    take_span(&mut spans, Some(&minimal_span())).expect("taken");
    assert_eq!(spans.len(), 1);
    assert_eq!(
        take_span(&mut spans, Some(&[0x0d])),
        Err(ObserveFetchError::Decode(DecodeError::Malformed))
    );
}

#[test]
fn fetch_errors_have_messages() {
    assert_eq!(
        ObserveFetchError::Transport("x".into()).message(),
        "transport unavailable: x"
    );
    assert_eq!(
        ObserveFetchError::Fetch("x".into()).message(),
        "fetch failed: x"
    );
    assert_eq!(
        ObserveFetchError::InvalidName.message(),
        "invalid observability Data name"
    );
    assert_eq!(
        ObserveFetchError::Decode(DecodeError::Malformed).message(),
        "span decode failed: malformed protobuf"
    );
}

#[test]
fn disabled_publishers_are_named_without_asking() {
    let mut profile = fixtures::ndnrs_profile(PlatformKind::Desktop);
    profile.capabilities.observability = FeatureState::Disabled;
    let ObservePlan::Show(summary) = plan_observe(&profile, ObservePosture::Disabled) else {
        panic!("nothing is fetched")
    };
    assert_eq!(summary.source, ObserveSourceState::Disabled);
    assert!(summary.recent.is_empty());
    assert!(summary
        .guidance
        .as_deref()
        .unwrap_or_default()
        .contains("disabled"));
    assert!(matches!(
        plan_observe(&profile, ObservePosture::Enabled),
        ObservePlan::FetchDesktop
    ));
}

#[test]
fn failed_fetches_are_reported_with_the_endpoint() {
    let summary = desktop_observe_summary(
        "unix:///run/a.sock",
        Ok(Vec::new()),
        Err(ObserveFetchError::Fetch("late".into())),
    );
    assert_eq!(summary.source, ObserveSourceState::Error);
    assert_eq!(
        summary.guidance.as_deref(),
        Some("Could not fetch live observability Data from unix:///run/a.sock: fetch failed: late")
    );
    let live = desktop_observe_summary(
        "unix:///run/a.sock",
        Err(ObserveFetchError::InvalidName),
        Ok(mock_trace().spans),
    );
    assert_eq!(live.recent, vec![mock_trace()]);
    assert!(live.recent_logs.is_empty());
}

fn span(trace_id: &str, span_id: &str, parent: Option<&str>, name: &str) -> SpanView {
    SpanView {
        trace_id: trace_id.into(),
        span_id: span_id.into(),
        parent_span_id: parent.map(str::to_string),
        name: name.into(),
        target: "t".into(),
        interest_name: None,
        face_id: None,
        strategy: None,
        status: SpanStatus::Unset,
        duration_us: u64::MAX / 2,
    }
}

#[test]
fn grouping_sorts_and_partitions_spans() {
    let traces = group_spans(vec![
        span("b", "2", None, "late"),
        span("a", "9", None, "pit.nack"),
        span("b", "1", None, "early"),
        span("b", "3", None, "more"),
    ]);
    assert_eq!(traces.len(), 2);
    assert_eq!(traces[0].trace_id, "a");
    assert!(traces[0].has_pit_fanout);
    assert_eq!(traces[1].root_name, "early");
    assert_eq!(traces[1].span_count, 3);
    assert_eq!(traces[1].duration_us, u64::MAX);
    assert!(!traces[1].has_pit_fanout);
    assert!(group_spans(Vec::new()).is_empty());
}

#[test]
fn trees_show_every_span_once_even_in_cycles() {
    let mut trace = mock_trace();
    trace.spans = vec![
        span("t", "1", Some("2"), "one"),
        span("t", "2", Some("1"), "two"),
        span("t", "4", Some("3"), "four"),
        span("t", "3", None, "three"),
        span("t", "0", Some("3"), "zero"),
    ];
    let rows = span_tree_rows(&trace);
    let shown: Vec<(&str, usize)> = rows
        .iter()
        .map(|row| (row.span.name.as_str(), row.depth))
        .collect();
    assert_eq!(
        shown,
        vec![("three", 0), ("zero", 1), ("four", 1), ("one", 0), ("two", 1)]
    );
    assert_eq!(rows[0].child_count, 2);
}

#[test]
fn log_lines_without_level_or_target_get_defaults() {
    let rows = parse_recent_log_response("9\nplain words\n ERROR a.b: broken");
    assert_eq!(rows.len(), 2);
    assert_eq!(rows[0].level, "log");
    assert_eq!(rows[0].target, "runtime");
    assert_eq!(rows[1].seq, 2);
    assert_eq!(rows[1].level, "error");
    assert_eq!(rows[1].target, "a.b");
    assert!(parse_recent_log_response("9").is_empty());
}

#[test]
fn bridge_errors_come_before_activity() {
    let row = |message: &str| LogEvidenceRow {
        seq: 1,
        target: "bridge".into(),
        level: "info".into(),
        message: message.into(),
        matched_by: String::new(),
    };
    assert_eq!(
        bridge_status_from_logs(
            &[row("ndn-otel-bridge up"), row("ndn-otel-bridge ERROR")],
            ObserveSourceState::Live
        )
        .state,
        BridgeExportState::Error
    );
    assert_eq!(
        bridge_status_from_logs(&[], ObserveSourceState::Live).state,
        BridgeExportState::NotAttached
    );
}

#[test]
fn grouping_forgets_the_order_of_arrival() {
    let first = span("b", "2", None, "late");
    let second = span("a", "9", None, "pit.nack");
    let third = span("b", "1", None, "early");
    assert_eq!(
        group_spans(vec![first.clone(), second.clone(), third.clone()]),
        group_spans(vec![third, second, first])
    );
}

#[test]
fn fields_that_a_span_does_not_show_are_skipped() {
    let plain = decode_otlp_span(&minimal_span()).expect("decode");
    let mut span = vec![1 << 3, 5];
    encode_len(&mut span, 3, b"state");
    span.extend_from_slice(&minimal_span());
    encode_len(&mut span, 7, b"start");
    assert_eq!(decode_otlp_span(&span).expect("decode"), plain);
}
