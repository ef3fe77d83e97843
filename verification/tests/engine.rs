use ndn_dashboard_next::engine::{
    compact_count, face_persistency_label, face_scope_label, plan_engine_poll, satisfaction_pct,
    DatasetState, EngineDatasets, EnginePoll, EnginePollError, EngineSnapshot, EngineSummary,
    FaceDataset, FibDataset, FibNextHop, RibDataset, RibRoute, StatusDataset, StrategyDataset,
};
use ndn_dashboard_next::model::{fixtures, ForwarderKind, PlatformKind};

#[test]
fn ndnrs_engine_summary_has_live_native_datasets() {
    let profile = fixtures::ndnrs_profile(PlatformKind::Desktop);
    let summary = EngineSummary::mock(&profile);

    assert!(!summary.read_only);
    assert_eq!(summary.profile_kind, ForwarderKind::NdnRs);
    assert_eq!(summary.faces.len(), 3);
    assert_eq!(summary.routes.len(), 3);
    assert!(
        summary
            .sources
            .iter()
            .all(|source| source.state == DatasetState::Fresh)
    );
}

#[test]
fn nfd_engine_summary_is_read_only_with_stale_native_gaps() {
    let profile = fixtures::nfd_profile();
    let summary = EngineSummary::mock(&profile);

    assert!(summary.read_only);
    assert_eq!(summary.profile_kind, ForwarderKind::Nfd);
    assert_eq!(summary.faces.len(), 2);
    assert!(
        summary
            .sources
            .iter()
            .any(|source| matches!(source.state, DatasetState::Stale { .. }))
    );
}

#[test]
fn disconnected_summary_preserves_panel_states() {
    let profile = fixtures::unsupported_profile();
    let summary = EngineSummary::disconnected(&profile);

    assert!(summary.status.is_none());
    assert!(summary.faces.is_empty());
    assert!(
        summary
            .sources
            .iter()
            .all(|source| source.state == DatasetState::Disconnected)
    );
}

#[test]
fn filters_faces_and_routes_without_mutating_source() {
    let profile = fixtures::ndnrs_profile(PlatformKind::Desktop);
    let summary = EngineSummary::mock(&profile);

    assert_eq!(summary.filter_faces("webtransport").len(), 1);
    assert_eq!(summary.search_routes("video").len(), 1);
    assert_eq!(summary.faces.len(), 3);
}

#[test]
fn browser_safe_polling_uses_shared_engine_models() {
    let profile = fixtures::browser_engine_profile();
    let EnginePoll::Show(summary) = plan_engine_poll(&profile) else {
        panic!("browser summary")
    };

    assert_eq!(summary.profile_kind, ForwarderKind::BrowserEngine);
    assert_eq!(summary.sources[0].state, DatasetState::Fresh);
    assert!(!summary.faces.is_empty());
}

#[test]
fn desktop_polling_asks_the_forwarder() {
    let profile = fixtures::ndnrs_profile(PlatformKind::Desktop);
    assert!(matches!(plan_engine_poll(&profile), EnginePoll::Desktop));
}

#[test]
fn compact_counts_round_like_doubles() {
    for value in [
        0u64,
        999,
        1_000,
        1_049,
        1_050,
        1_150,
        1_250,
        9_950,
        999_949,
        999_950,
        999_999,
        1_000_000,
        1_050_000,
        2_430_000,
        123_456_789,
        u64::MAX / 3,
        u64::MAX - 1,
        u64::MAX,
    ] {
        let expected = if value >= 1_000_000 {
            format!("{:.1}m", value as f64 / 1_000_000.0)
        } else if value >= 1_000 {
            format!("{:.1}k", value as f64 / 1_000.0)
        } else {
            value.to_string()
        };
        assert_eq!(compact_count(value), expected, "value {value}");
    }
}

#[test]
fn percentages_saturate_and_stop_at_all() {
    assert_eq!(satisfaction_pct(1, 0), 0);
    assert_eq!(satisfaction_pct(1, 3), 33);
    assert_eq!(satisfaction_pct(9, 3), 100);
    assert_eq!(satisfaction_pct(u64::MAX, u64::MAX), 1);
}

#[test]
fn dataset_codes_have_labels() {
    assert_eq!(face_scope_label(0), "non-local");
    assert_eq!(face_scope_label(1), "local");
    assert_eq!(face_scope_label(2), "unknown");
    assert_eq!(face_persistency_label(0), "persistent");
    assert_eq!(face_persistency_label(1), "on-demand");
    assert_eq!(face_persistency_label(2), "permanent");
    assert_eq!(face_persistency_label(9), "unknown");
}

fn dataset_face(id: u64) -> FaceDataset {
    FaceDataset {
        face_id: id,
        uri: "udp4://192.0.2.1:6363".into(),
        face_scope: 0,
        face_persistency: 1,
        n_in_interests: 1,
        n_in_data: 2,
        n_in_nacks: 3,
        n_out_interests: 4,
        n_out_data: 5,
        n_out_nacks: 6,
        n_in_bytes: 70,
        n_out_bytes: 80,
    }
}

#[test]
fn datasets_become_a_snapshot() {
    let snapshot = EngineSnapshot::from_datasets(EngineDatasets {
        status: Some(StatusDataset {
            nfd_version: "1.0".into(),
            start_timestamp_ms: 5_000,
            current_timestamp_ms: 65_000,
            n_cs_entries: 0,
            n_pit_entries: 7,
            n_in_interests: 200,
            n_out_interests: 10,
            n_in_data: 20,
            n_out_data: 50,
        }),
        faces: Some(vec![dataset_face(9)]),
        rib: Some(vec![RibDataset {
            name: "/a".into(),
            routes: vec![RibRoute {
                face_id: 9,
                origin: 0,
                cost: 3,
                flags: 1,
            }],
        }]),
        fib: Some(vec![FibDataset {
            name: "/b".into(),
            nexthops: vec![FibNextHop {
                face_id: 9,
                cost: 4,
            }],
        }]),
        strategies: Some(vec![StrategyDataset {
            name: "/".into(),
            strategy: "/s".into(),
        }]),
    });
    let status = snapshot.status.expect("status");
    assert_eq!(status.uptime_s, 60);
    assert_eq!(status.start_unix_s, 5);
    assert_eq!(snapshot.faces[0].rx_packets, 6);
    assert_eq!(snapshot.faces[0].tx_packets, 15);
    assert_eq!(snapshot.faces[0].persistency, "on-demand");
    assert!(snapshot.routes.iter().any(|route| route.prefix == "/a"));
    assert!(snapshot.strategies[0].inherited);
    let store = snapshot.store_pit.expect("store");
    assert_eq!(store.cs_capacity, 1);
    assert_eq!(store.cs_hit_rate_pct, 25);
    assert_eq!(snapshot.traffic.expect("traffic").satisfaction_rate_pct, 25);
    assert!(snapshot
        .sources
        .iter()
        .all(|source| source.state == DatasetState::Fresh));
}

#[test]
fn routes_fall_back_to_the_forwarding_table() {
    let snapshot = EngineSnapshot::from_datasets(EngineDatasets {
        status: None,
        faces: None,
        rib: None,
        fib: Some(vec![FibDataset {
            name: "/b".into(),
            nexthops: vec![FibNextHop {
                face_id: 9,
                cost: 4,
            }],
        }]),
        strategies: None,
    });
    assert_eq!(snapshot.routes.len(), 1);
    assert_eq!(snapshot.routes[0].source, "fib");
    assert_eq!(snapshot.routes[0].flags, "read-only");
    assert_eq!(snapshot.sources[0].state, DatasetState::Disconnected);
    assert_eq!(snapshot.sources[2].state, DatasetState::Fresh);
}

#[test]
fn overflowing_counters_are_told() {
    let mut face = dataset_face(1);
    assert!(face.counters_fit());
    face.n_in_data = u64::MAX;
    assert!(!face.counters_fit());
}

#[test]
fn empty_searches_show_everything() {
    let summary = EngineSummary::mock(&fixtures::ndnrs_profile(PlatformKind::Desktop));
    assert_eq!(summary.filter_faces("  "), summary.faces);
    assert_eq!(summary.search_routes(""), summary.routes);
    assert_eq!(summary.filter_faces("WEBTRANSPORT").len(), 1);
    assert_eq!(summary.filter_faces("no such face").len(), 0);
}

#[test]
fn face_search_lowers_letters_beyond_ascii() {
    let mut summary = EngineSummary::mock(&fixtures::ndnrs_profile(PlatformKind::Desktop));
    summary.faces[0].uri = "udp4://\u{00C9}COLE.example".into();
    assert_eq!(summary.filter_faces("\u{00E9}cole").len(), 1);
    assert_eq!(summary.filter_faces("\u{00C9}COLE").len(), 1);
}

#[test]
fn connect_errors_name_the_socket() {
    let error = EnginePollError::connect("/run/a.sock", "refused");
    assert!(error.message.contains("/run/a.sock"));
    assert!(error.message.contains("refused"));
}
