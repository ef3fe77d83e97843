use ndn_dashboard_next::client::{
    normalize_probe, AttachError, BrowserEngineClient, BrowserRemoteClient, DashboardClient,
    DesktopLocalClient, MockDashboardClient, ProbeEndpoint, ProbeOutcome, ProbeStep,
    ProbeTranscript, RelayClient,
};
use ndn_dashboard_next::model::{AttachMode, AttachTarget, FeatureState, ForwarderKind, PlatformKind};

#[test]
fn browser_client_exposes_browser_engine_target_first() {
    let client = MockDashboardClient::new(PlatformKind::Browser);
    let targets = client.attach_targets();
    assert_eq!(targets[0].mode, AttachMode::BrowserEngine);
}

#[test]
fn probe_normalizes_nfd_as_read_only() {
    let client = MockDashboardClient::new(PlatformKind::Desktop);
    let target = client
        .attach_targets()
        .into_iter()
        .find(|t| t.label == "NFD compatibility")
        .expect("target");
    let probe = client.probe(&target).expect("probe");
    assert_eq!(probe.profile.kind, ForwarderKind::Nfd);
    assert_eq!(probe.profile.capabilities.nfd_basic, FeatureState::ReadOnly);
    assert!(probe.transcript.saw_ok(ProbeEndpoint::NfdStatusGeneral));
    assert!(!probe.transcript.saw_ok(ProbeEndpoint::NdnRsCapabilities));
}

#[test]
fn browser_remote_adapter_probes_nfd_then_native_extensions() {
    let client = BrowserRemoteClient {
        url: "wss://router.example/ndn".into(),
    };
    let target = client.attach_targets().remove(0);
    let probe = client.probe(&target).expect("probe");

    assert_eq!(
        probe.transcript.steps[0].endpoint,
        ProbeEndpoint::NfdStatusGeneral
    );
    assert_eq!(
        probe.profile.capabilities.ndnrs_native,
        FeatureState::Enabled
    );
    assert_eq!(
        probe.profile.capabilities.observability,
        FeatureState::Enabled
    );
}

#[test]
fn browser_engine_degrades_observe_without_breaking_attach() {
    let client = BrowserEngineClient;
    let target = client.attach_targets().remove(0);
    let probe = client.probe(&target).expect("probe");

    assert_eq!(probe.profile.kind, ForwarderKind::BrowserEngine);
    assert_eq!(
        probe.profile.capabilities.observability,
        FeatureState::Degraded
    );
    assert_eq!(
        probe.profile.capabilities.trust_context,
        FeatureState::Degraded
    );
}

#[test]
fn failed_nfd_probe_returns_transport_specific_error() {
    let target = AttachTarget {
        label: "broken".into(),
        endpoint: "unix:///missing.sock".into(),
        mode: AttachMode::LocalDesktop,
        profile_hint: Some(ForwarderKind::Unknown),
    };
    let err = normalize_probe(
        PlatformKind::Desktop,
        &target,
        ProbeTranscript::new(vec![ProbeStep {
            endpoint: ProbeEndpoint::NfdStatusGeneral,
            outcome: ProbeOutcome::TransportUnavailable,
        }]),
        false,
    )
    .expect_err("probe should fail");

    assert_eq!(err, AttachError::UnsupportedProfile);
}

fn single_step(outcome: ProbeOutcome) -> ProbeTranscript {
    ProbeTranscript::new(vec![ProbeStep {
        endpoint: ProbeEndpoint::NfdStatusGeneral,
        outcome,
    }])
}

fn target(mode: AttachMode, hint: Option<ForwarderKind>) -> AttachTarget {
    AttachTarget {
        label: "target".into(),
        endpoint: "unix:///run/target.sock".into(),
        mode,
        profile_hint: hint,
    }
}

#[test]
fn failed_probes_name_what_went_wrong() {
    let local = target(AttachMode::LocalDesktop, Some(ForwarderKind::NdnRs));
    for (outcome, error) in [
        (ProbeOutcome::Unauthorized, AttachError::Unauthorized),
        (ProbeOutcome::Timeout, AttachError::Timeout),
        (ProbeOutcome::InvalidResponse, AttachError::InvalidResponse),
        (ProbeOutcome::TransportUnavailable, AttachError::UnsupportedProfile),
        (ProbeOutcome::NotFound, AttachError::DesktopSocketUnavailable),
    ] {
        let found = normalize_probe(PlatformKind::Desktop, &local, single_step(outcome), true)
            .expect_err("no basic management");
        assert_eq!(found, error);
    }
    let remote = target(AttachMode::RemoteWeb, Some(ForwarderKind::NdnRs));
    let found = normalize_probe(
        PlatformKind::Browser,
        &remote,
        single_step(ProbeOutcome::NotFound),
        true,
    )
    .expect_err("no basic management");
    assert_eq!(found, AttachError::BrowserTransportUnavailable);
    assert_eq!(
        found.message(),
        "Browser attach needs a browser-safe NDN transport or relay."
    );
}

#[test]
fn unhinted_targets_are_refused_by_the_stand_in() {
    let client = MockDashboardClient::new(PlatformKind::Desktop);
    assert_eq!(
        client
            .probe(&target(AttachMode::LocalDesktop, None))
            .expect_err("no hint"),
        AttachError::UnsupportedProfile
    );
}

#[test]
fn relayed_compatible_forwarders_stay_read_only() {
    let client = RelayClient {
        endpoint: "wss://relay.example".into(),
        profile_hint: ForwarderKind::YaNfd,
    };
    let probe = client
        .probe(&client.attach_targets()[0])
        .expect("relay probe");
    assert_eq!(probe.profile.capabilities.nfd_basic, FeatureState::ReadOnly);
    assert_eq!(
        probe.profile.capabilities.ndnrs_native,
        FeatureState::Unsupported
    );
    assert!(!probe.has_identity);
}

#[test]
fn desktop_and_browser_stand_ins_list_their_targets() {
    let desktop = MockDashboardClient::new(PlatformKind::Desktop).attach_targets();
    let browser = MockDashboardClient::new(PlatformKind::Browser).attach_targets();
    assert_eq!(desktop.len(), 3);
    assert_eq!(browser.len(), 4);
    assert_eq!(desktop[0].label, "ndn-rs native");
    assert_eq!(browser[1].endpoint, "wss://forwarder.example/ndn");
    let local = DesktopLocalClient {
        socket: "unix:///run/a.sock".into(),
    };
    assert_eq!(local.attach_targets()[0].endpoint, "unix:///run/a.sock");
}
