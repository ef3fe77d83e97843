use ndn_dashboard_next::model::{
    capability_matrix, fixtures, observe_from_capabilities, socket_path, trust_from_capabilities,
    AttachMode, AttachTarget, CapabilityEvidence, CapabilitySet, DashboardPreferences,
    DashboardState, FeatureState, ForwarderKind, ObservePosture, PlatformKind, SavedAttachTarget,
    TargetPlatformStatus, TrustPosture,
};

#[test]
fn nfd_profile_is_read_only_without_native_features() {
    let profile = fixtures::nfd_profile();
    assert_eq!(profile.capabilities.nfd_basic, FeatureState::ReadOnly);
    assert_eq!(profile.capabilities.ndnrs_native, FeatureState::Unsupported);
    assert_eq!(
        observe_from_capabilities(&profile.capabilities),
        ObservePosture::Unsupported
    );
}

#[test]
fn ndnrs_profile_enables_trust_and_observe() {
    let profile = fixtures::ndnrs_profile(PlatformKind::Desktop);
    assert_eq!(
        trust_from_capabilities(&profile.capabilities, true),
        TrustPosture::Valid
    );
    assert_eq!(
        observe_from_capabilities(&profile.capabilities),
        ObservePosture::Enabled
    );
}

#[test]
fn detached_state_does_not_claim_live_capabilities() {
    let state = DashboardState::detached(PlatformKind::Desktop);

    assert_eq!(state.profile.kind, ForwarderKind::Unknown);
    assert_eq!(state.trust, TrustPosture::Unsupported);
    assert_eq!(state.observe, ObservePosture::Unsupported);
    assert_eq!(state.profile.capabilities, CapabilitySet::unsupported());
}

#[test]
fn browser_engine_is_degraded_not_broken() {
    let profile = fixtures::browser_engine_profile();
    assert_eq!(profile.capabilities.observability, FeatureState::Degraded);
    assert_eq!(
        observe_from_capabilities(&profile.capabilities),
        ObservePosture::Degraded
    );
}

#[test]
fn capability_evidence_normalizes_non_native_forwarders_read_only() {
    let capabilities = CapabilitySet::from_probe_evidence(&CapabilityEvidence {
        nfd_basic: true,
        ndnrs_native: false,
        observability: FeatureState::Enabled,
        trust_context: FeatureState::Enabled,
        tools: FeatureState::Enabled,
    });

    assert_eq!(capabilities.nfd_basic, FeatureState::ReadOnly);
    assert_eq!(capabilities.ndnrs_native, FeatureState::Unsupported);
    assert_eq!(capabilities.tools, FeatureState::ReadOnly);
    assert_eq!(capabilities.trust_context, FeatureState::Unsupported);
}

#[test]
fn missing_nfd_probe_normalizes_to_unsupported() {
    let capabilities = CapabilitySet::from_probe_evidence(&CapabilityEvidence {
        nfd_basic: false,
        ndnrs_native: true,
        observability: FeatureState::Enabled,
        trust_context: FeatureState::Enabled,
        tools: FeatureState::Enabled,
    });

    assert_eq!(capabilities, CapabilitySet::unsupported());
}

fn saved(label: &str, endpoint: &str, at: Option<u64>) -> SavedAttachTarget {
    SavedAttachTarget::from_target(
        AttachTarget {
            label: label.into(),
            endpoint: endpoint.into(),
            mode: AttachMode::LocalDesktop,
            profile_hint: Some(ForwarderKind::NdnRs),
        },
        false,
        at,
    )
}

#[test]
fn target_ids_join_mode_hint_and_endpoint() {
    let target = AttachTarget {
        label: "any".into(),
        endpoint: "tab://engine".into(),
        mode: AttachMode::BrowserEngine,
        profile_hint: None,
    };
    let mode = AttachMode::BrowserEngine.label();
    assert_eq!(target.id(), format!("{mode}:unknown:tab://engine"));
    let entry = SavedAttachTarget::from_target(target.clone(), true, None);
    assert_eq!(entry.attach_target(), target);
    assert_eq!(
        entry.platform_status(PlatformKind::Desktop),
        TargetPlatformStatus::NeedsBrowser
    );
    assert_eq!(
        saved("a", "unix:///a", None).platform_status(PlatformKind::Browser),
        TargetPlatformStatus::NeedsBridge
    );
    assert!(saved("a", "unix:///a", None)
        .platform_status(PlatformKind::Desktop)
        .is_available());
}

#[test]
fn connected_targets_are_selected_and_recent_first() {
    let mut prefs = DashboardPreferences::defaults(PlatformKind::Desktop, Vec::new());
    assert_eq!(prefs.selected_target_id, None);
    for (n, name) in ["a", "b", "c", "d", "e", "f"].iter().enumerate() {
        prefs.remember_connected(
            saved(name, &format!("unix:///{name}"), None),
            100 + n as u64,
        );
    }
    let labels: Vec<&str> = prefs
        .recent_targets
        .iter()
        .map(|target| target.label.as_str())
        .collect();
    assert_eq!(labels, vec!["f", "e", "d", "c", "b"]);
    assert_eq!(prefs.saved_targets.len(), 6);
    assert_eq!(prefs.selected_target().expect("selected").label, "f");
    prefs.remember_connected(saved("a", "unix:///a", None), 500);
    assert_eq!(prefs.saved_targets.len(), 6);
    assert_eq!(prefs.recent_targets[0].label, "a");
    let id = prefs.saved_targets[1].id.clone();
    prefs.select(&id);
    assert_eq!(prefs.selected_target_id, Some(id.clone()));
    prefs.select("no such id");
    assert_eq!(prefs.selected_target_id, Some(id));
}

#[test]
fn unix_scheme_is_stripped_from_sockets() {
    assert_eq!(socket_path("unix:///run/a.sock"), "/run/a.sock");
    assert_eq!(socket_path("/run/a.sock"), "/run/a.sock");
    assert_eq!(socket_path("unix://unix://x"), "unix://x");
}

#[test]
fn capability_matrix_lists_five_features() {
    let rows = capability_matrix(&fixtures::nfd_profile());
    assert_eq!(rows.len(), 5);
    assert_eq!(rows[0].state, FeatureState::ReadOnly);
    assert_eq!(rows[1].state, FeatureState::Unsupported);
}
