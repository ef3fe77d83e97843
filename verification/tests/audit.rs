use ndn_dashboard_next::audit::{parse_log_line, AuditViewModel, LogLevel, LogRow};

#[test]
fn parses_log_line_with_trace() {
    let row = parse_log_line("INFO ndn_fwd::mgmt trace=abc faces/list").expect("row");

    assert_eq!(row.level, LogLevel::Info);
    assert_eq!(row.trace_id.as_deref(), Some("abc"));
    assert_eq!(row.message, "faces/list");
}

#[test]
fn filters_logs_by_level_and_target() {
    let model = AuditViewModel::demo();
    let rows = model.filter_logs(LogLevel::Warn, "ndn_security");

    assert_eq!(rows.len(), 1);
    assert_eq!(rows[0].level, LogLevel::Warn);
}

#[test]
fn correlates_logs_under_trace() {
    let model = AuditViewModel::demo();
    let rows = model.logs_for_trace("trace-b7");

    assert_eq!(rows.len(), 1);
    assert!(rows[0].target.contains("validator"));
}

#[test]
fn log_lines_need_a_level_a_target_and_a_third_part() {
    assert_eq!(parse_log_line(""), None);
    assert_eq!(parse_log_line("LOUD target trace=a message"), None);
    assert_eq!(parse_log_line("INFO"), None);
    assert_eq!(parse_log_line("INFO target"), None);
    assert_eq!(
        parse_log_line("warning target trace= left over words "),
        Some(LogRow {
            level: LogLevel::Warn,
            target: "target".into(),
            message: "left over words".into(),
            trace_id: None,
        })
    );
    assert_eq!(
        parse_log_line("ERROR target something"),
        Some(LogRow {
            level: LogLevel::Error,
            target: "target".into(),
            message: String::new(),
            trace_id: None,
        })
    );
}

#[test]
fn level_labels_read_back() {
    for level in [
        LogLevel::Trace,
        LogLevel::Debug,
        LogLevel::Info,
        LogLevel::Warn,
        LogLevel::Error,
    ] {
        assert_eq!(LogLevel::parse(level.label()), Some(level));
    }
    assert_eq!(LogLevel::parse("loud"), None);
}

#[test]
fn weakest_level_and_empty_prefix_keep_every_row() {
    let model = AuditViewModel::demo();
    assert_eq!(model.filter_logs(LogLevel::Trace, ""), model.logs);
    assert!(model.filter_logs(LogLevel::Error, "").is_empty());
    assert!(model.logs_for_trace("trace-zz").is_empty());
}
