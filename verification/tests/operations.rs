use ndn_dashboard_next::config::{ConfigPreset, RouterConfigDraft};
use ndn_dashboard_next::model::{
    fixtures, AttachMode, AttachTarget, CapabilitySet, ForwarderKind, PlatformKind,
    SavedAttachTarget,
};
use ndn_dashboard_next::operations::{
    AttachState, DashboardRunState, EngineBinding, EngineOwnership, OperationsHomeModel,
    RouterLifecycleAction, StartRouterModalModel, StartRouterTab,
};

fn local_target() -> SavedAttachTarget {
    SavedAttachTarget::from_target(
        AttachTarget {
            label: "local ndn-fwd".into(),
            endpoint: "unix:///run/ndn-fwd/mgmt.sock".into(),
            mode: AttachMode::LocalDesktop,
            profile_hint: Some(ForwarderKind::NdnRs),
        },
        true,
        None,
    )
}

#[test]
fn detached_desktop_can_start_and_reattach_but_not_stop_or_shutdown() {
    let model = OperationsHomeModel::new(
        PlatformKind::Desktop,
        AttachState::Detached { last_error: None },
        CapabilitySet::unsupported(),
        Some(&local_target()),
    );

    assert_eq!(model.run_state, DashboardRunState::Detached);
    assert!(
        model
            .action(RouterLifecycleAction::StartRouter)
            .expect("start action")
            .enabled
    );
    assert!(
        model
            .action(RouterLifecycleAction::Reattach)
            .expect("reattach action")
            .enabled
    );
    assert!(
        !model
            .action(RouterLifecycleAction::StopDashboardStarted)
            .expect("stop action")
            .enabled
    );
    assert!(
        !model
            .action(RouterLifecycleAction::ShutdownSigned)
            .expect("shutdown action")
            .enabled
    );
}

#[test]
fn browser_cannot_start_local_processes() {
    let model = OperationsHomeModel::new(
        PlatformKind::Browser,
        AttachState::Detached { last_error: None },
        CapabilitySet::unsupported(),
        Some(&local_target()),
    );

    let start = model
        .action(RouterLifecycleAction::StartRouter)
        .expect("start action");
    assert!(!start.enabled);
    assert!(
        start
            .reason
            .as_deref()
            .unwrap_or_default()
            .contains("Browsers cannot start local processes")
    );
}

#[test]
fn external_engine_disables_stop_but_allows_signed_shutdown() {
    let profile = fixtures::ndnrs_profile(PlatformKind::Desktop);
    let model = OperationsHomeModel::new(
        PlatformKind::Desktop,
        AttachState::Attached {
            binding: EngineBinding {
                profile: profile.clone(),
                ownership: EngineOwnership::External,
                target_label: Some("local ndn-fwd".into()),
                attached_at_unix_s: Some(1_717_300_000),
            },
        },
        profile.capabilities,
        Some(&local_target()),
    );

    assert_eq!(model.run_state, DashboardRunState::Attached);
    assert!(
        !model
            .action(RouterLifecycleAction::StopDashboardStarted)
            .expect("stop action")
            .enabled
    );
    assert!(
        model
            .action(RouterLifecycleAction::ShutdownSigned)
            .expect("shutdown action")
            .enabled
    );
}

#[test]
fn dashboard_started_engine_enables_stop() {
    let profile = fixtures::ndnrs_profile(PlatformKind::Desktop);
    let model = OperationsHomeModel::new(
        PlatformKind::Desktop,
        AttachState::Attached {
            binding: EngineBinding {
                profile: profile.clone(),
                ownership: EngineOwnership::DashboardStarted,
                target_label: Some("local ndn-fwd".into()),
                attached_at_unix_s: Some(1_717_300_000),
            },
        },
        profile.capabilities,
        Some(&local_target()),
    );

    assert!(
        model
            .action(RouterLifecycleAction::StopDashboardStarted)
            .expect("stop action")
            .enabled
    );
}

#[test]
fn start_router_model_blocks_browser_startup() {
    let draft = RouterConfigDraft::preset(ConfigPreset::BrowserSandbox);
    let model = StartRouterModalModel::new(
        PlatformKind::Browser,
        StartRouterTab::QuickStart,
        draft.clone(),
        draft.clone(),
        Ok(rendered(&draft)),
    );

    assert!(!model.can_start);
    assert!(
        model
            .blocker
            .as_deref()
            .unwrap_or_default()
            .contains("Browsers cannot spawn local ndn-fwd")
    );
}

#[test]
fn start_router_model_allows_desktop_toml_preview() {
    let draft = RouterConfigDraft::preset(ConfigPreset::LocalLab);
    let model = StartRouterModalModel::new(
        PlatformKind::Desktop,
        StartRouterTab::QuickStart,
        draft.clone(),
        draft.clone(),
        Ok(rendered(&draft)),
    );

    assert!(model.can_start);
    assert!(model.preview_toml.contains("router_name"));
}

fn rendered(draft: &RouterConfigDraft) -> String {
    let mut table = toml::Table::new();
    table.insert(
        "router_name".into(),
        toml::Value::String(draft.router_name.clone()),
    );
    table.insert(
        "management_socket".into(),
        toml::Value::String(draft.management_socket.clone()),
    );
    toml::to_string_pretty(&table).expect("toml")
}

#[test]
fn drafts_that_cannot_be_rendered_cannot_be_started() {
    let draft = RouterConfigDraft::preset(ConfigPreset::LocalLab);
    let model = StartRouterModalModel::new(
        PlatformKind::Desktop,
        StartRouterTab::QuickStart,
        draft.clone(),
        draft,
        Err("no value".into()),
    );
    assert!(!model.can_start);
    assert_eq!(
        model.blocker.as_deref(),
        Some("Router config cannot be rendered: no value")
    );
    assert_eq!(model.preview_toml, "# render error: no value");
}

#[test]
fn inferred_owners_cannot_be_stopped() {
    for platform in [PlatformKind::Browser, PlatformKind::Desktop] {
        for mode in [
            AttachMode::BrowserEngine,
            AttachMode::RemoteWeb,
            AttachMode::LocalDesktop,
            AttachMode::Relay,
        ] {
            assert!(!EngineOwnership::inferred(mode, platform).can_stop());
        }
    }
}
