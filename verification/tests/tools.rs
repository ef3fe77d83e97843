use ndn_dashboard_next::engine::EngineSummary;
use ndn_dashboard_next::model::{fixtures, ObservePosture, PlatformKind};
use ndn_dashboard_next::observe::ObserveSummary;
use ndn_dashboard_next::tools::{
    begin_tool_run, browser_tool_run, finish_put_run, finish_tool_run, format_bytes, format_rtt,
    has_tool_transport, mock_runs, run_face_diagnostic, run_route_diagnostic, run_trace_lookup,
    tool_server_controls, tool_step, IperfWorkflowConfig, PeekWorkflowConfig, PingWorkflowConfig,
    PutWorkflowConfig, ToolData, ToolEvent, ToolKind, ToolRun, ToolStart, ToolStatus,
    WorkerOutcome,
};

#[test]
fn tool_run_lifecycle_reaches_complete() {
    let run = ToolRun::new(ToolKind::Peek, "/a")
        .start()
        .push_sample("bytes", "128")
        .complete("ok");
    assert_eq!(run.status, ToolStatus::Complete);
    assert_eq!(run.samples.len(), 1);
    assert_eq!(run.result.as_deref(), Some("ok"));
}

#[test]
fn tool_run_failure_keeps_message() {
    let run = ToolRun::new(ToolKind::Ping, "/missing")
        .start()
        .fail("timeout");
    assert_eq!(run.status, ToolStatus::Failed);
    assert_eq!(run.result.as_deref(), Some("timeout"));
}

#[test]
fn ping_config_defaults_to_short_operator_run() {
    let config = PingWorkflowConfig::quick("/demo/router");
    assert_eq!(config.count, 4);
    assert_eq!(config.interval_ms, 200);
    assert_eq!(config.lifetime_ms, 1000);
}

#[test]
fn remaining_tool_configs_are_operator_sized() {
    let iperf = IperfWorkflowConfig::<f64>::quick("/demo/iperf");
    let peek = PeekWorkflowConfig::quick("/demo/data");
    let put = PutWorkflowConfig::quick("/demo/put");
    assert_eq!(iperf.duration_secs, 1);
    assert_eq!(iperf.initial_window, 4);
    assert_eq!(iperf.cc, "aimd");
    assert_eq!(iperf.lifetime_ms, 800);
    assert_eq!(iperf.interval_ms, 500);
    assert!(!iperf.reverse);
    assert_eq!(iperf.sign_mode, "digest_sha256");
    assert!(peek.pipeline.is_none());
    assert!(peek.save_to.is_none());
    assert_eq!(peek.lifetime_ms, 800);
    assert!(!peek.hex);
    assert!(!peek.meta_only);
    assert!(!peek.can_be_prefix);
    assert_eq!(put.chunk_size, 0);
    assert_eq!(put.freshness_ms, 1000);
    assert_eq!(put.timeout_secs, 1);
    assert!(!put.sign);
    assert!(!put.hmac);
    assert!(!put.payload.is_empty());
}

#[test]
fn tool_run_can_carry_trace_pivot() {
    let run = ToolRun::new(ToolKind::Ping, "/demo").add_trace_ref("/demo");
    assert_eq!(run.trace_refs, vec!["/demo"]);
}

#[test]
fn tool_run_export_and_cancel_are_structured() {
    let run = ToolRun::new(ToolKind::Peek, "/demo")
        .start()
        .push_sample("bytes", "128")
        .complete("ok");
    assert!(run.export_text().contains("bytes: 128"));
    assert_eq!(run.clone().cancel().status, ToolStatus::Cancelled);
}

fn event(error: bool, text: &str, data: Option<ToolData>) -> ToolEvent {
    ToolEvent {
        error,
        text: text.into(),
        data,
    }
}

fn started(kind: ToolKind) -> ToolRun {
    match begin_tool_run(
        kind,
        "/demo",
        &fixtures::ndnrs_profile(PlatformKind::Desktop),
    ) {
        ToolStart::Go { run, socket } => {
            assert_eq!(socket, "/run/ndn-fwd/mgmt.sock");
            run
        }
        ToolStart::Done(_) => panic!("the transport is there"),
    }
}

fn sample_pairs(run: &ToolRun) -> Vec<(&str, &str)> {
    run.samples
        .iter()
        .map(|sample| (sample.label.as_str(), sample.value.as_str()))
        .collect()
}

#[test]
fn ping_events_become_samples_and_a_result() {
    let mut run = started(ToolKind::Ping);
    assert_eq!(run.trace_refs, vec!["/demo"]);
    run = tool_step(
        run,
        event(
            false,
            "",
            Some(ToolData::PingResult {
                seq: 1,
                rtt_us: 1500,
            }),
        ),
    );
    assert_eq!(run.status, ToolStatus::Streaming);
    run = tool_step(
        run,
        event(
            false,
            "",
            Some(ToolData::PingSummary {
                sent: 4,
                received: 3,
                nacks: 0,
                timeouts: 1,
                loss: "25.0%".into(),
                rtt_avg_us: 999,
                rtt_p50_us: 1000,
                rtt_p99_us: 12_345,
            }),
        ),
    );
    assert_eq!(
        sample_pairs(&run),
        vec![
            ("seq 1", "1.50 ms"),
            ("sent/recv", "4/3"),
            ("loss", "25.0%"),
            ("rtt avg", "999 us"),
            ("rtt p50/p99", "1.00 ms/12.35 ms"),
        ]
    );
    assert_eq!(
        run.result.as_deref(),
        Some("3/4 satisfied, 0 nacked, 1 timeouts")
    );
    let done = finish_tool_run(run.clone(), WorkerOutcome::Finished);
    assert_eq!(done, run);
    assert_eq!(
        finish_tool_run(run, WorkerOutcome::Failed("x".into())).result.as_deref(),
        Some("ping failed: x")
    );
}

#[test]
fn errors_fail_a_run_unless_they_carry_data_for_it() {
    let run = tool_step(started(ToolKind::Ping), event(true, "bad", None));
    assert_eq!(run.status, ToolStatus::Failed);
    assert_eq!(run.result.as_deref(), Some("bad"));
    let run = tool_step(
        started(ToolKind::Ping),
        event(
            true,
            "bad",
            Some(ToolData::PingResult {
                seq: 1,
                rtt_us: 10,
            }),
        ),
    );
    assert_eq!(run.status, ToolStatus::Streaming);
    let run = tool_step(
        started(ToolKind::Peek),
        event(true, "bad", Some(ToolData::Other)),
    );
    assert_eq!(run.status, ToolStatus::Failed);
}

#[test]
fn workers_without_summaries_still_complete_runs() {
    for (kind, words) in [
        (ToolKind::Ping, "ping completed without structured summary"),
        (ToolKind::Iperf, "iperf completed without structured summary"),
        (ToolKind::Peek, "peek completed without structured result"),
    ] {
        let run = finish_tool_run(started(kind), WorkerOutcome::Finished);
        assert_eq!(run.status, ToolStatus::Complete);
        assert_eq!(run.result.as_deref(), Some(words));
    }
    assert!(started(ToolKind::Iperf).trace_refs.is_empty());
    assert_eq!(
        finish_tool_run(started(ToolKind::Iperf), WorkerOutcome::Crashed("y".into()))
            .result
            .as_deref(),
        Some("iperf task failed: y")
    );
}

#[test]
fn iperf_and_peek_events_become_samples() {
    let run = tool_step(
        started(ToolKind::Iperf),
        event(
            false,
            "",
            Some(ToolData::IperfInterval {
                bytes: 2048,
                goodput: "1.00 Mbps".into(),
                rtt_avg_us: 5,
            }),
        ),
    );
    let run = tool_step(
        run,
        event(
            false,
            "",
            Some(ToolData::IperfSummary {
                duration: "1.00s".into(),
                transferred_bytes: 3_145_728,
                goodput: "2.00 Mbps".into(),
                sent: 10,
                received: 9,
                loss: "10.0%".into(),
                rtt_avg_us: 5,
                rtt_p99_us: 6,
            }),
        ),
    );
    assert_eq!(run.result.as_deref(), Some("2.00 Mbps"));
    assert_eq!(sample_pairs(&run)[0], ("interval bytes", "2.00 KB"));
    assert_eq!(sample_pairs(&run)[4], ("transferred", "3.00 MB"));
    assert_eq!(run.samples.len(), 9);

    let run = tool_step(
        started(ToolKind::Peek),
        event(
            false,
            "",
            Some(ToolData::FetchProgress {
                received: 1,
                total: 2,
            }),
        ),
    );
    let run = tool_step(
        run,
        event(
            false,
            "",
            Some(ToolData::PeekResult {
                name: "/demo/v=1".into(),
                bytes_received: 128,
                saved_to: Some("/tmp/x".into()),
            }),
        ),
    );
    assert_eq!(
        sample_pairs(&run),
        vec![
            ("segments", "1/2"),
            ("Data name", "/demo/v=1"),
            ("bytes", "128 B"),
            ("saved", "/tmp/x"),
        ]
    );
    assert_eq!(run.result.as_deref(), Some("received 128 B"));
}

#[test]
fn put_runs_show_lines_freshness_and_payload() {
    let run = tool_step(started(ToolKind::Put), event(false, "  ", None));
    assert!(run.samples.is_empty());
    let run = tool_step(run, event(false, "serving", Some(ToolData::Other)));
    let run = finish_put_run(run, 1000, 27, WorkerOutcome::Finished);
    assert_eq!(
        sample_pairs(&run),
        vec![
            ("event", "serving"),
            ("freshness", "1000 ms"),
            ("payload", "27 B"),
        ]
    );
    assert_eq!(
        run.result.as_deref(),
        Some("object served for dashboard session")
    );
    let failed = finish_put_run(
        started(ToolKind::Put),
        1,
        1,
        WorkerOutcome::Crashed("z".into()),
    );
    assert_eq!(failed.result.as_deref(), Some("put task failed: z"));
    let refused = tool_step(started(ToolKind::Put), event(true, "no face", None));
    assert_eq!(refused.status, ToolStatus::Failed);
}

#[test]
fn tools_need_a_local_transport() {
    let browser = fixtures::ndnrs_profile(PlatformKind::Browser);
    assert_eq!(
        has_tool_transport(&browser),
        Err(
            "workflow needs a desktop Unix-socket attach until browser-safe tool transport lands"
                .to_string()
        )
    );
    match begin_tool_run(ToolKind::Ping, "/demo", &browser) {
        ToolStart::Done(run) => assert_eq!(run.status, ToolStatus::Failed),
        ToolStart::Go { .. } => panic!("no transport"),
    }
    let mut local = fixtures::ndnrs_profile(PlatformKind::Desktop);
    local.capabilities = fixtures::unsupported_profile().capabilities;
    assert_eq!(
        has_tool_transport(&local),
        Err("selected forwarder does not expose compatible tool transport".to_string())
    );
    assert_eq!(
        browser_tool_run(ToolKind::Put, "/demo").result.as_deref(),
        Some("browser put needs the browser-safe tool transport")
    );
}

#[test]
fn sizes_and_times_round_like_doubles() {
    for n in [
        0u64,
        1,
        999,
        1000,
        1004,
        1005,
        1015,
        1023,
        1024,
        1025,
        1_234_567,
        1_048_575,
        1_048_576,
        1_073_741_823,
        1_073_741_824,
        5_368_709_125,
        u64::MAX / 7,
        u64::MAX,
    ] {
        let rtt = if n >= 1000 {
            format!("{:.2} ms", n as f64 / 1000.0)
        } else {
            format!("{n} us")
        };
        assert_eq!(format_rtt(n), rtt);
        let bytes = if n >= 1_073_741_824 {
            format!("{:.2} GB", n as f64 / 1_073_741_824.0)
        } else if n >= 1_048_576 {
            format!("{:.2} MB", n as f64 / 1_048_576.0)
        } else if n >= 1024 {
            format!("{:.2} KB", n as f64 / 1024.0)
        } else {
            format!("{n} B")
        };
        assert_eq!(format_bytes(n), bytes);
    }
}

#[test]
fn diagnostics_list_the_first_matches() {
    let profile = fixtures::ndnrs_profile(PlatformKind::Desktop);
    let engine = EngineSummary::mock(&profile);
    let run = run_route_diagnostic(&engine, "video");
    assert_eq!(
        run.result.as_deref(),
        Some("best visible match /ndn/site/video via face 7")
    );
    assert_eq!(
        sample_pairs(&run)[1],
        ("/ndn/site/video", "face 7 cost 10 child-inherit")
    );
    assert_eq!(
        run_route_diagnostic(&engine, "/nowhere").result.as_deref(),
        Some("no visible route matched")
    );
    let run = run_face_diagnostic(&engine, "webtransport");
    assert_eq!(
        run.result.as_deref(),
        Some("face 11 webtransport://edge.example on-demand")
    );
    assert_eq!(
        sample_pairs(&run)[1],
        ("face 11", "up non-local rx/tx 8.0k / 8.1k")
    );
    assert_eq!(
        run_face_diagnostic(&engine, "nowhere").status,
        ToolStatus::Failed
    );
    let observe = ObserveSummary::mock(&profile, ObservePosture::Enabled);
    let run = run_trace_lookup(&observe, "interest");
    assert_eq!(run.result.as_deref(), Some("1 trace(s) matched"));
    assert_eq!(run.trace_refs, vec!["aaaaaaaaaaaaaaaaaaaaaaaaaaaaaaaa"]);
    assert_eq!(
        run_trace_lookup(&observe, "nothing").result.as_deref(),
        Some("no matching trace")
    );
}

#[test]
fn exports_and_controls_are_texts() {
    let run = ToolRun::new(ToolKind::Peek, "/demo")
        .start()
        .push_sample("bytes", "128")
        .complete("ok");
    assert_eq!(
        run.export_text(),
        "peek /demo\nstatus: complete\nresult: ok\nbytes: 128\n"
    );
    let controls = tool_server_controls(&fixtures::unsupported_profile());
    assert_eq!(controls.len(), 3);
    assert_eq!(
        controls[2].result.as_deref(),
        Some("server control unsupported by target")
    );
    assert_eq!(mock_runs().len(), 3);
    assert_eq!(
        PutWorkflowConfig::quick("/a").payload,
        b"dashboard-next put payload\n".to_vec()
    );
    assert_eq!(PutWorkflowConfig::quick("/a").mtu(), 1024);
}
