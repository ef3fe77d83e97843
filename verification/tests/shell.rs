use ndn_dashboard_next::client::{DashboardClient, MockDashboardClient};
use ndn_dashboard_next::config::{ConfigPreset, RouterConfigDraft};
use ndn_dashboard_next::engine::EngineSummary;
use ndn_dashboard_next::identity::TrustContextSummary;
use ndn_dashboard_next::model::{
    fixtures, DashboardPreferences, Density, FeatureState, ObservePosture, PlatformKind,
    TrustPosture,
};
use ndn_dashboard_next::mutation::{
    finish_mutation, begin_mutation, ManagementOutcome, MutationOperation, MutationStatus,
    MutationStep, TypedMutationCommand,
};
use ndn_dashboard_next::observe::{mock_trace, span_tree_rows, ObserveSummary};
use ndn_dashboard_next::operations::{AttachState, EngineOwnership, OperationsHomeModel};
use ndn_dashboard_next::shell::attach::{LaunchedForwarder, Session};
use ndn_dashboard_next::shell::console::{EngineForm, MutationBoard};
use ndn_dashboard_next::shell::panels::{
    child_label, connect_band, indent_px, operations_board, tone_for_outcome, trace_count_label,
    trace_labels, trust_cards, BandMessage, BoardMessage,
};
use ndn_dashboard_next::shell::router::{
    edit_cs_capacity, edit_face_uri, edit_route_cost, edit_route_prefix, first_route_cost,
    StartRouterDialog,
};
use ndn_dashboard_next::shell::workbench::{
    tool_run_key, tool_run_matches_filter, IperfFactors, RunBoard, ToolForm,
};
use ndn_dashboard_next::shell::{
    optional_text, parse_opt_u64, parse_opt_usize, parse_u64_or, parse_usize_or,
    pending_action_label, probe_outcome_label, probe_time_label, tone_for_feature,
    tone_for_trust, PlatformLabel, Tone, TrustModal, Workspace,
};
use ndn_dashboard_next::tools::{mock_runs, ToolKind, ToolRun, ToolStatus};

fn session(platform: PlatformKind) -> Session {
    let targets = MockDashboardClient::new(platform).attach_targets();
    Session::new(platform, DashboardPreferences::defaults(platform, targets))
}

#[test]
fn sessions_start_detached_and_attach_to_the_selection() {
    let mut session = session(PlatformKind::Desktop);
    assert!(!session.state.attach_state.is_attached());
    session.toggle_density();
    assert_eq!(session.state.density, Density::Comfortable);
    assert_eq!(session.preferences.density, Density::Comfortable);
    let id = session
        .preferences
        .saved_targets
        .iter()
        .find(|target| target.label == "ndn-rs native")
        .expect("target")
        .id
        .clone();
    session.select_target(&id);
    assert!(session.attach_selected(true));
    assert!(session.state.attach_state.is_attached());
    assert_eq!(session.state.density, Density::Comfortable);
    assert_eq!(session.last_probe_at, Some(1_717_300_000));
    assert_eq!(session.last_attach_error, None);
    assert_eq!(session.preferences.recent_targets[0].label, "ndn-rs native");
}

#[test]
fn attaching_without_a_selection_is_explained() {
    let mut session = Session::new(
        PlatformKind::Desktop,
        DashboardPreferences::defaults(PlatformKind::Desktop, Vec::new()),
    );
    assert!(!session.attach_selected(false));
    assert_eq!(session.last_attach_error, None);
    assert!(!session.attach_selected(true));
    assert_eq!(
        session.last_attach_error.as_deref(),
        Some("Select an attach target first.")
    );
    assert!(session.attach_default(true));
    assert_eq!(session.last_attach_error, None);
    assert!(!session.attach_labelled("no such label"));
}

#[test]
fn started_forwarders_can_be_stopped() {
    let mut session = session(PlatformKind::Desktop);
    let draft = RouterConfigDraft::preset(ConfigPreset::LocalLab);
    assert!(session.start_finished(
        &draft,
        Ok(LaunchedForwarder {
            pid: 42,
            config_path: "/tmp/router.toml".into(),
        })
    ));
    let notice = session.notice.clone().expect("notice");
    assert_eq!(notice.tone, Tone::Good);
    assert_eq!(notice.title, "Local ndn-fwd started and attached");
    assert_eq!(
        notice.detail,
        "pid 42 using /tmp/router.toml; attached through unix:///run/ndn-fwd/mgmt.sock."
    );
    match &session.state.attach_state {
        AttachState::Attached { binding } => {
            assert_eq!(binding.ownership, EngineOwnership::DashboardStarted);
            assert_eq!(
                binding.target_label.as_deref(),
                Some("dashboard-started ndn-fwd")
            );
        }
        other => panic!("not attached: {other:?}"),
    }
    session.stop_finished(Ok("bye".into()));
    assert_eq!(
        session.notice.expect("notice").title,
        "Local ndn-fwd stopped"
    );
}

#[test]
fn failed_starts_are_noted() {
    let mut session = session(PlatformKind::Desktop);
    let draft = RouterConfigDraft::preset(ConfigPreset::LocalLab);
    assert!(!session.start_finished(&draft, Err("no binary".into())));
    assert_eq!(session.notice.clone().expect("notice").detail, "no binary");
    assert!(!session.state.attach_state.is_attached());
    assert!(session.start_finished(
        &draft,
        Err("ndn-fwd is already running from this dashboard".into())
    ));
    assert_eq!(
        session.notice.clone().expect("notice").title,
        "Attached to dashboard-started ndn-fwd"
    );
    session.start_refused("line 1");
    assert_eq!(
        session.notice.expect("notice").detail,
        "Router TOML is invalid: line 1"
    );
}

#[test]
fn fixtures_keep_density_and_clear_probes() {
    let mut session = session(PlatformKind::Browser);
    session.toggle_density();
    assert!(session.attach_labelled("browser in-page engine"));
    session.show_fixture();
    assert_eq!(session.state.density, Density::Comfortable);
    assert!(session.last_probe.is_none());
    assert_eq!(session.last_probe_at, None);
    assert_eq!(session.state.platform_label(), "browser target");
}

#[test]
fn engine_forms_gate_and_build_commands() {
    let profile = fixtures::ndnrs_profile(PlatformKind::Desktop);
    let summary = EngineSummary::mock(&profile);
    let mut form = EngineForm::for_summary(&summary);
    assert_eq!(form.route_face_id, "7");
    assert_eq!(form.cs_capacity, "65536");
    assert!(!form.can_send(&profile, TrustPosture::Valid, MutationOperation::DestroyFace));
    form.confirm_destroy = true;
    assert!(form.can_send(&profile, TrustPosture::Valid, MutationOperation::DestroyFace));
    assert!(!form.can_send(
        &fixtures::nfd_profile(),
        TrustPosture::Valid,
        MutationOperation::DestroyFace
    ));
    form.strategy_name = "__custom__".into();
    assert!(!form.can_send(&profile, TrustPosture::Valid, MutationOperation::SetStrategy));
    form.custom_strategy_name = " /s ".into();
    match form.command(MutationOperation::SetStrategy, "") {
        Some(TypedMutationCommand::StrategySet(command)) => assert_eq!(command.strategy, "/s"),
        other => panic!("no strategy: {other:?}"),
    }
    form.route_cost = "much".into();
    match form.command(MutationOperation::AddRoute, "") {
        Some(TypedMutationCommand::RouteAdd(command)) => assert_eq!(command.cost, 10),
        other => panic!("no route: {other:?}"),
    }
    form.cs_capacity = "lots".into();
    assert_eq!(form.command(MutationOperation::SetCsCapacity, ""), None);
}

#[test]
fn mutations_are_shown_once() {
    let profile = fixtures::ndnrs_profile(PlatformKind::Desktop);
    let mut form = EngineForm::for_summary(&EngineSummary::mock(&profile));
    let mut board = MutationBoard::new();
    form.confirm_cs_erase = true;
    let command = board
        .submit(
            &mut form,
            &profile,
            TrustPosture::Valid,
            MutationOperation::EraseCs,
        )
        .expect("command");
    assert!(!form.confirm_cs_erase);
    assert_eq!(board.records.len(), 1);
    assert_eq!(board.records[0].status, MutationStatus::Running);
    assert_eq!(board.session.commands.len(), 1);
    let MutationStep::Send(ready) = begin_mutation(&profile, TrustPosture::Valid, command) else {
        panic!("the command is to be sent")
    };
    board.settle(finish_mutation(
        ready,
        ManagementOutcome::ConnectFailed("gone".into()),
    ));
    assert_eq!(board.records.len(), 1);
    assert_eq!(board.records[0].status, MutationStatus::Retryable);
    let replayed = board.session.commands[0].clone();
    board.replay(&profile, TrustPosture::Valid, &replayed);
    assert_eq!(board.records.len(), 2);
    assert_eq!(board.session.commands.len(), 1);
}

#[test]
fn run_boards_settle_cancel_and_export() {
    let mut board = RunBoard::new(mock_runs());
    board.start_run(ToolKind::Ping, "/x");
    assert_eq!(board.runs.len(), 4);
    board.settle_run(ToolRun::new(ToolKind::Ping, "/x").start().complete("ok"));
    assert_eq!(board.runs.len(), 4);
    assert_eq!(board.runs[0].status, ToolStatus::Complete);
    let first = board.runs[0].clone();
    board.cancel_run(&first);
    assert_eq!(board.runs[0].status, ToolStatus::Cancelled);
    board.export_run(&first);
    assert_eq!(board.runs.len(), 5);
    assert_eq!(board.runs[0].samples.last().expect("sample").label, "export");
    assert_eq!(board.visible_runs("").len(), 5);
    assert_eq!(board.visible_runs("GOODPUT").len(), 1);
    assert!(board.failed_runs().is_empty());
}

#[test]
fn keys_pick_runs_for_export() {
    let mut board = RunBoard::new(mock_runs());
    let key = tool_run_key(2, &board.runs[2]);
    assert_eq!(key, "2:trace lookup:/demo/video/keyframe:linked to Observe");
    board.select_run(&key, true);
    board.select_run(&key, true);
    assert_eq!(board.selected, vec![key.clone()]);
    assert_eq!(
        board.selected_export(),
        format!("run: {key}\n{}", board.runs[2].export_text())
    );
    board.select_run(&tool_run_key(0, &board.runs[0]), true);
    assert!(board.selected_export().contains("\n---\nrun: 2:"));
    let body = board.selected_export();
    board.export_selected(&body, Err("full disk".into()));
    assert_eq!(
        board.runs[0].samples[1].value,
        "download failed: full disk"
    );
    board.select_run(&key, false);
    assert_eq!(board.selected.len(), 1);
    board.clear_selected();
    assert!(board.selected.is_empty());
    board.toggle_run("a");
    board.toggle_run("b");
    board.focus_run("b");
    assert_eq!(board.expanded, vec!["b".to_string()]);
    assert!(board.is_expanded("b") && !board.is_selected("b"));
    board.toggle_run("b");
    assert!(board.detail_runs().is_empty());
}

#[test]
fn tool_forms_fall_back_to_their_defaults() {
    let mut form = ToolForm::new();
    form.ping_count = " 9 ".into();
    form.ping_interval_ms = "soon".into();
    let ping = form.ping_config();
    assert_eq!((ping.count, ping.interval_ms, ping.lifetime_ms), (9, 200, 1000));
    form.peek_save_to = "  ".into();
    form.peek_pipeline = "4".into();
    let peek = form.peek_config();
    assert_eq!(peek.save_to, None);
    assert_eq!(peek.pipeline, Some(4));
    form.put_payload = "caf\u{00E9}".into();
    assert_eq!(form.put_config().payload, "caf\u{00E9}".as_bytes().to_vec());
    let factors = || IperfFactors {
        min_window: Some(1.0),
        max_window: Some(128.0),
        ai: Some(1.0),
        md: Some(0.5),
        cubic_c: Some(0.4),
    };
    let aimd = form.iperf_config(factors());
    assert_eq!(aimd.ai, Some(1.0));
    assert_eq!(aimd.cubic_c, None);
    form.iperf_cc = "fixed".into();
    form.iperf_node_prefix = "/me".into();
    let fixed = form.iperf_config(factors());
    assert_eq!((fixed.min_window, fixed.ai), (None, None));
    assert_eq!(fixed.node_prefix, None);
    form.iperf_reverse = true;
    assert_eq!(
        form.iperf_config(factors()).node_prefix.as_deref(),
        Some("/me")
    );
}

#[test]
fn router_drafts_are_edited_field_by_field() {
    let mut draft = RouterConfigDraft::preset(ConfigPreset::BrowserSandbox);
    assert_eq!(first_route_cost(&draft), "10");
    edit_route_prefix(&mut draft, String::new());
    assert!(draft.routes.is_empty());
    edit_face_uri(&mut draft, "udp4://a".into());
    edit_route_prefix(&mut draft, "/r".into());
    assert_eq!(draft.routes[0].face_uri, "udp4://a");
    edit_face_uri(&mut draft, "udp4://b".into());
    assert_eq!(draft.faces[0].uri, "udp4://b");
    assert_eq!(draft.routes[0].face_uri, "udp4://b");
    assert!(edit_route_cost(&mut draft, "5"));
    assert!(!edit_route_cost(&mut draft, " 6"));
    assert_eq!(draft.routes[0].cost, 5);
    assert!(!edit_cs_capacity(&mut draft, "-1"));
    assert!(edit_cs_capacity(&mut draft, "12"));
    assert_eq!(draft.cs_capacity_bytes, 12);
}

#[test]
fn start_dialog_keeps_drafts_and_errors() {
    let mut dialog = StartRouterDialog::new(PlatformKind::Desktop);
    dialog.show_rendered(Ok("a = 1".into()));
    assert!(dialog.open);
    assert_eq!(dialog.raw_toml, "a = 1");
    dialog.show_rendered(Ok("b = 2".into()));
    assert_eq!(dialog.raw_toml, "a = 1");
    dialog.apply_raw(Err("bad".into()));
    assert_eq!(dialog.parse_error.as_deref(), Some("bad"));
    dialog.type_raw("c = 3".into());
    assert_eq!(dialog.parse_error, None);
    dialog.update(
        RouterConfigDraft::preset(ConfigPreset::BrowserSandbox),
        Err("x".into()),
    );
    assert_eq!(dialog.raw_toml, "");
    dialog.start_finished(Tone::Bad);
    assert!(dialog.open);
    dialog.start_finished(Tone::Good);
    assert!(!dialog.open);
}

#[test]
fn panels_count_only_what_is_attached() {
    let mut session = session(PlatformKind::Desktop);
    let engine = EngineSummary::mock(&fixtures::ndnrs_profile(PlatformKind::Desktop));
    let observe = ObserveSummary::mock(
        &fixtures::ndnrs_profile(PlatformKind::Desktop),
        ObservePosture::Enabled,
    );
    let runs = mock_runs();
    let model = OperationsHomeModel::new(
        session.platform,
        session.state.attach_state.clone(),
        session.state.profile.capabilities,
        session.preferences.selected_target(),
    );
    let board = operations_board(&model, &session.state, &engine, &observe, &runs, false, false);
    assert_eq!((board.faces, board.traces, board.active_tools), (0, 0, 0));
    assert_eq!(board.message, BoardMessage::Detached);
    assert!(board.start_available);

    session.show_fixture();
    let model = OperationsHomeModel::new(
        session.platform,
        session.state.attach_state.clone(),
        session.state.profile.capabilities,
        session.preferences.selected_target(),
    );
    let board = operations_board(&model, &session.state, &engine, &observe, &runs, false, true);
    assert_eq!((board.faces, board.routes, board.active_tools), (3, 3, 1));
    assert_eq!(board.traces, observe.recent.len());
    assert_eq!(board.message, BoardMessage::Notice);
}

#[test]
fn attach_controls_explain_themselves() {
    let error = "broken".to_string();
    let band = connect_band(PlatformKind::Browser, None, None, Some(&error), false);
    assert_eq!(band.message, BandMessage::Failed("broken".into()));
    assert_eq!(band.target_label, "no target selected");
    assert!(!band.launch_enabled && !band.attached && !band.target_available);
    let band = connect_band(PlatformKind::Browser, None, Some(1), None, false);
    assert_eq!(band.message, BandMessage::BrowserNote);
    let band = connect_band(PlatformKind::Desktop, None, Some(1), None, false);
    assert_eq!(band.message, BandMessage::Nothing);
}

#[test]
fn traces_are_labelled() {
    let trace = mock_trace();
    let labels = trace_labels(&trace);
    assert_eq!(labels.target, "fwd.pipeline");
    assert_eq!(labels.face, "7");
    assert_eq!(labels.status, "ok");
    assert_eq!(labels.content_store, "not attributed");
    assert_eq!(labels.strategy, "best-route");
    assert_eq!(trace_count_label(" ", 2, 5), "2 traces");
    assert_eq!(trace_count_label("q", 2, 5), "2/5 traces");
    let rows = span_tree_rows(&trace);
    assert_eq!(child_label(&rows[0]), "1 child");
    assert_eq!(child_label(&rows[1]), "0 children");
    assert_eq!(indent_px(&rows[1]), 22);
}

#[test]
fn trust_cards_lead_to_their_dialogs() {
    let summary = TrustContextSummary::from_profile(
        &fixtures::ndnrs_profile(PlatformKind::Desktop),
        TrustPosture::Valid,
    );
    let cards = trust_cards(&summary);
    assert_eq!(cards.len(), 4);
    assert_eq!(cards[0].tone, Tone::Good);
    assert_eq!(cards[2].value, "signed");
    assert_eq!(cards[3].value, "1 approval");
    assert_eq!(cards[3].modal, TrustModal::Approvals);
    assert_eq!(tone_for_outcome("valid chain"), Tone::Good);
    assert_eq!(tone_for_outcome("expired"), Tone::Bad);
}

#[test]
fn probes_and_fields_have_labels() {
    let mut session = session(PlatformKind::Desktop);
    assert_eq!(probe_outcome_label(None, "status/general"), "");
    assert!(session.attach_labelled("NFD compatibility"));
    let probe = session.last_probe.as_ref().expect("probe");
    assert_eq!(probe_outcome_label(Some(probe), probe.steps[0].endpoint.name()), "ok");
    assert_eq!(probe_outcome_label(Some(probe), probe.steps[2].endpoint.name()), "404");
    assert_eq!(probe_outcome_label(Some(probe), "elsewhere"), "not probed");
    assert_eq!(probe_time_label(Some(7)), "at 7");
    assert_eq!(probe_time_label(None), "not run");
    assert_eq!(parse_u64_or(" 5 ", 1), 5);
    assert_eq!(parse_u64_or("five", 1), 1);
    assert_eq!(parse_opt_u64("-5"), None);
    assert_eq!(parse_usize_or("", 3), 3);
    assert_eq!(parse_opt_usize("3"), Some(3));
    assert_eq!(optional_text("  x "), Some("x".to_string()));
    assert_eq!(optional_text("   "), None);
    assert_eq!(tone_for_feature(FeatureState::Unsupported).label(), "muted");
    assert_eq!(tone_for_trust(TrustPosture::NoIdentity), Tone::Amber);
    assert_eq!(Workspace::ALL.len(), 6);
    assert_eq!(Workspace::Trust.icon(), "TR");
}

#[test]
fn filters_look_into_samples_and_labels() {
    let run = ToolRun::new(ToolKind::Peek, "/Demo").push_sample("Bytes", "128");
    assert!(tool_run_matches_filter(&run, ""));
    assert!(tool_run_matches_filter(&run, " /DEMO "));
    assert!(tool_run_matches_filter(&run, "bytes"));
    assert!(tool_run_matches_filter(&run, "stream"));
    assert!(!tool_run_matches_filter(&run, "ping"));
}

#[test]
fn blocked_actions_say_so() {
    let profile = fixtures::nfd_profile();
    let preflight = ndn_dashboard_next::mutation::preflight_mutation(
        &profile,
        TrustPosture::Valid,
        MutationOperation::ImportSafeBag,
    );
    assert_eq!(pending_action_label(&preflight), "blocked by preflight");
}
