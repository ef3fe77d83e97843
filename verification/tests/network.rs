use ndn_dashboard_next::engine::EngineSummary;
use ndn_dashboard_next::model::{fixtures, FeatureState, PlatformKind, TrustPosture};
use ndn_dashboard_next::network::NetworkViewModel;

#[test]
fn ndnrs_network_model_keeps_mutable_discovery_and_static_routes() {
    let profile = fixtures::ndnrs_profile(PlatformKind::Desktop);
    let summary = EngineSummary::mock(&profile);
    let model = NetworkViewModel::from_engine(&profile, &summary);

    assert!(model.discovery.writable);
    assert!(
        model
            .routing
            .iter()
            .any(|row| row.protocol == "static" && row.routes > 0)
    );
    assert!(!model.topology.is_empty());
}

#[test]
fn nfd_network_model_degrades_native_controls() {
    let profile = fixtures::nfd_profile();
    let summary = EngineSummary::mock(&profile);
    let model = NetworkViewModel::from_engine(&profile, &summary);

    assert!(model.degraded);
    assert_eq!(model.discovery.status, FeatureState::ReadOnly);
    assert!(
        model
            .neighbors
            .iter()
            .all(|row| row.trust == TrustPosture::Unsupported)
    );
}
