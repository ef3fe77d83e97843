use ndn_dashboard_next::client::{
    state_from_probe, BrowserEngineClient, DashboardClient, DesktopLocalClient, ProbeEndpoint,
};
use ndn_dashboard_next::model::{
    AttachMode, FeatureState, ForwarderKind, ObservePosture, PlatformKind, TrustPosture,
};

#[test]
fn desktop_attach_witness_normalizes_local_ndn_fwd_profile() {
    let client = DesktopLocalClient {
        socket: "unix:///run/ndn-fwd/mgmt.sock".into(),
    };
    let target = client
        .attach_targets()
        .into_iter()
        .next()
        .expect("desktop attach target");

    assert_eq!(target.mode, AttachMode::LocalDesktop);
    assert_eq!(target.profile_hint, Some(ForwarderKind::NdnRs));

    let probe = client.probe(&target).expect("desktop probe");
    assert!(probe.transcript.saw_ok(ProbeEndpoint::NfdStatusGeneral));
    assert!(probe.transcript.saw_ok(ProbeEndpoint::NfdFacesList));
    assert!(probe.transcript.saw_ok(ProbeEndpoint::NdnRsCapabilities));

    let state = state_from_probe(PlatformKind::Desktop, probe);
    assert_eq!(state.profile.kind, ForwarderKind::NdnRs);
    assert_eq!(state.profile.capabilities.nfd_basic, FeatureState::Enabled);
    assert_eq!(
        state.profile.capabilities.ndnrs_native,
        FeatureState::Enabled
    );
    assert_eq!(state.observe, ObservePosture::Enabled);
    assert_eq!(state.trust, TrustPosture::Valid);
}

#[test]
fn browser_attach_witness_uses_browser_safe_in_page_engine() {
    let client = BrowserEngineClient;
    let target = client
        .attach_targets()
        .into_iter()
        .next()
        .expect("browser engine target");

    assert_eq!(target.mode, AttachMode::BrowserEngine);
    assert_eq!(target.profile_hint, Some(ForwarderKind::BrowserEngine));

    let probe = client.probe(&target).expect("browser engine probe");
    assert!(probe.transcript.saw_ok(ProbeEndpoint::NfdStatusGeneral));
    assert!(probe.transcript.saw_ok(ProbeEndpoint::NdnRsCapabilities));

    let state = state_from_probe(PlatformKind::Browser, probe);
    assert_eq!(state.profile.kind, ForwarderKind::BrowserEngine);
    assert_eq!(state.profile.capabilities.nfd_basic, FeatureState::Enabled);
    assert_eq!(
        state.profile.capabilities.ndnrs_native,
        FeatureState::Enabled
    );
    assert_eq!(state.observe, ObservePosture::Degraded);
    assert_eq!(state.trust, TrustPosture::Valid);
}
