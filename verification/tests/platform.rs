use ndn_dashboard_next::client::{DashboardClient, MockDashboardClient};
use ndn_dashboard_next::model::{AttachTarget, DashboardPreferences, Density, PlatformKind};
use ndn_dashboard_next::platform::{
    config_home, current_platform, density_storage_label, load_or_default_preferences,
    load_preferences, preference_file_name, preference_key, safe_file_name, services, ConfigHome,
    MemoryPreferenceStore, PreferenceSnapshot, PreferenceStore,
};

#[test]
fn browser_services_do_not_claim_private_key_storage() {
    let services = services(PlatformKind::Browser);
    assert_eq!(services.persistence, "browser localStorage");
}

#[test]
fn preference_keys_are_scoped_by_platform() {
    assert_ne!(
        preference_key(PlatformKind::Browser),
        preference_key(PlatformKind::Desktop)
    );
}

#[test]
fn memory_preference_store_round_trips_density_and_targets() {
    let client = MockDashboardClient::new(PlatformKind::Desktop);
    let mut prefs =
        DashboardPreferences::defaults(PlatformKind::Desktop, client.attach_targets());
    prefs.density = Density::Comfortable;
    let mut store = MemoryPreferenceStore::new(PlatformKind::Desktop);

    let saved = store.save(prefs.clone());
    let loaded = store.load().expect("snapshot");

    assert_eq!(saved.key, preference_key(PlatformKind::Desktop));
    assert_eq!(loaded.preferences.density, Density::Comfortable);
    assert_eq!(loaded.preferences.saved_targets, prefs.saved_targets);
}

#[test]
fn memory_store_is_empty_until_something_is_saved() {
    let store = MemoryPreferenceStore::new(PlatformKind::Browser);
    assert_eq!(store.load(), None);
    assert_eq!(
        preference_key(PlatformKind::Browser),
        "ndn-dashboard-next:browser:preferences:v1"
    );
}

#[test]
fn stored_preferences_come_before_defaults() {
    let targets: Vec<AttachTarget> =
        MockDashboardClient::new(PlatformKind::Desktop).attach_targets();
    let defaults =
        load_or_default_preferences(None, PlatformKind::Desktop, targets.clone());
    assert_eq!(
        defaults,
        DashboardPreferences::defaults(PlatformKind::Desktop, targets)
    );
    assert_eq!(defaults.recent_targets.len(), 3);
    let mut kept = defaults.clone();
    kept.density = Density::Comfortable;
    let snapshot = PreferenceSnapshot {
        key: "key".into(),
        preferences: kept.clone(),
    };
    let stored = load_preferences(Some(snapshot));
    assert_eq!(
        load_or_default_preferences(stored, PlatformKind::Desktop, Vec::new()),
        kept
    );
}

#[test]
fn file_names_keep_only_safe_characters() {
    assert_eq!(safe_file_name("a-B_3.txt"), "a-B_3.txt");
    assert_eq!(safe_file_name("../a b/\u{00E9}"), ".._a_b__");
    assert_eq!(
        preference_file_name(PlatformKind::Desktop),
        "preferences-desktop.json"
    );
}

#[test]
fn configuration_has_a_home_in_any_environment() {
    assert_eq!(config_home(true, true), ConfigHome::Xdg);
    assert_eq!(config_home(true, false), ConfigHome::Xdg);
    assert_eq!(config_home(false, true), ConfigHome::HomeDotConfig);
    assert_eq!(config_home(false, false), ConfigHome::Temporary);
    assert_eq!(current_platform(true), PlatformKind::Browser);
    assert_eq!(current_platform(false), PlatformKind::Desktop);
    assert_eq!(density_storage_label(Density::Compact), "stored compact");
}
