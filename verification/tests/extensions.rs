use ndn_dashboard_next::extensions::ExtensionRegistry;
use ndn_dashboard_next::model::{fixtures, FeatureState, PlatformKind};

#[test]
fn ndnrs_profile_enables_extension_surfaces() {
    let profile = fixtures::ndnrs_profile(PlatformKind::Desktop);
    let registry = ExtensionRegistry::for_profile(&profile);

    assert!(
        registry
            .surfaces
            .iter()
            .all(|surface| surface.capability != FeatureState::Unsupported)
    );
    assert_eq!(registry.compute[0].diagnostics, "ready");
}

#[test]
fn nfd_profile_degrades_native_extensions() {
    let profile = fixtures::nfd_profile();
    let registry = ExtensionRegistry::for_profile(&profile);

    assert_eq!(registry.coding[0].state, FeatureState::Unsupported);
    assert_eq!(registry.rate_limits[0].state, FeatureState::ReadOnly);
}
