use ndn_dashboard_next::config::{ConfigPreset, DashboardSettingsDraft, RouterConfigDraft};
use ndn_dashboard_next::model::{Density, PlatformKind};



#[test]
fn config_diff_marks_restart_boundaries() {
    let current = RouterConfigDraft::preset(ConfigPreset::LocalLab);
    let mut draft = current.clone();
    draft.router_name = "/local/operator/router-2".into();
    draft.cs_capacity_bytes = 131_072;

    let diffs = draft.diff_from(&current);

    assert!(
        diffs
            .iter()
            .any(|diff| diff.field == "router_name" && diff.restart_required)
    );
    assert!(
        diffs
            .iter()
            .any(|diff| diff.field == "cs_capacity_bytes" && !diff.restart_required)
    );
}

#[test]
fn equal_drafts_have_no_diff() {
    for preset in ConfigPreset::ALL {
        let draft = RouterConfigDraft::preset(preset);
        assert!(draft.diff_from(&draft.clone()).is_empty());
    }
}

#[test]
fn diff_rows_show_both_values_in_order() {
    let current = RouterConfigDraft::preset(ConfigPreset::LocalLab);
    let draft = RouterConfigDraft::preset(ConfigPreset::BrowserSandbox);
    let rows: Vec<(&str, String, String, bool)> = draft
        .diff_from(&current)
        .into_iter()
        .map(|diff| (diff.field, diff.current, diff.draft, diff.restart_required))
        .collect();
    assert_eq!(rows.len(), 7);
    assert_eq!(
        rows[0],
        (
            "router_name",
            "/local/operator/router".to_string(),
            "/browser/sandbox/router".to_string(),
            true
        )
    );
    assert_eq!(
        rows[2],
        (
            "cs_capacity_bytes",
            "65536".to_string(),
            "16384".to_string(),
            false
        )
    );
    assert_eq!(
        rows[5],
        (
            "discovery.enabled",
            "true".to_string(),
            "false".to_string(),
            false
        )
    );
}

#[test]
fn browser_settings_are_read_only() {
    let browser = DashboardSettingsDraft::for_platform(PlatformKind::Browser, Density::Compact);
    let desktop = DashboardSettingsDraft::for_platform(PlatformKind::Desktop, Density::Compact);
    assert!(browser.browser_config_read_only);
    assert!(!desktop.browser_config_read_only);
    assert!(!RouterConfigDraft::can_write(PlatformKind::Browser));
    assert!(RouterConfigDraft::can_write(PlatformKind::Desktop));
}
