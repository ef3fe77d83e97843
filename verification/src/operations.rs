//! Operations-home state and lifecycle rules.
//!
//! The models here are pure: a shell renders them, a platform layer executes
//! process work, and a client layer supplies probe evidence.

use vstd::prelude::*;
use vstd::std_specs::convert::FromSpecImpl;

use crate::config;
use crate::config::{ConfigDiff, RouterConfigDraft};
use crate::model::{
    AttachMode, CapabilitySet, ForwarderProfile, PlatformKind, SavedAttachTarget,
    TargetPlatformStatus,
};
use crate::text;

verus! {

#[derive(Clone, Copy, Debug, PartialEq, Eq, Structural)]
pub enum DashboardRunState {
    Booting,
    Detached,
    Probing,
    Attached,
    Failed,
    Demo,
}

impl DashboardRunState {
    /// The text of [`DashboardRunState::label`].
    pub open spec fn label_text(self) -> Seq<char> {
        match self {
            Self::Booting => "booting"@,
            Self::Detached => "detached"@,
            Self::Probing => "probing"@,
            Self::Attached => "attached"@,
            Self::Failed => "attach failed"@,
            Self::Demo => "demo"@,
        }
    }

    pub fn label(self) -> (r: &'static str)
        ensures
            r@ == self.label_text(),
    {
        match self {
            Self::Booting => "booting",
            Self::Detached => "detached",
            Self::Probing => "probing",
            Self::Attached => "attached",
            Self::Failed => "attach failed",
            Self::Demo => "demo",
        }
    }
}

#[derive(Debug, PartialEq, Eq)]
pub enum AttachState {
    Detached { last_error: Option<AttachFailure> },
    Probing { target: AttachTargetSnapshot },
    Attached { binding: EngineBinding },
    Degraded { binding: EngineBinding, reason: DegradedReason },
    Failed { target: AttachTargetSnapshot, error: AttachFailure },
}

impl Clone for AttachState {
    fn clone(&self) -> (r: Self)
        ensures
            r == *self,
    {
        match self {
            AttachState::Detached { last_error } => AttachState::Detached {
                last_error: match last_error {
                    Some(error) => Some(error.clone()),
                    None => None,
                },
            },
            AttachState::Probing { target } => AttachState::Probing { target: target.clone() },
            AttachState::Attached { binding } => AttachState::Attached {
                binding: binding.clone(),
            },
            AttachState::Degraded { binding, reason } => AttachState::Degraded {
                binding: binding.clone(),
                reason: reason.clone(),
            },
            AttachState::Failed { target, error } => AttachState::Failed {
                target: target.clone(),
                error: error.clone(),
            },
        }
    }
}

impl AttachState {
    /// The engine that the dashboard is bound to.
    pub open spec fn bound(self) -> Option<EngineBinding> {
        match self {
            AttachState::Attached { binding } => Some(binding),
            AttachState::Degraded { binding, reason } => Some(binding),
            _ => None,
        }
    }

    /// The run state that an attach state shows as.
    pub open spec fn shown_as(self) -> DashboardRunState {
        match self {
            AttachState::Detached { .. } => DashboardRunState::Detached,
            AttachState::Probing { .. } => DashboardRunState::Probing,
            AttachState::Attached { .. } => DashboardRunState::Attached,
            AttachState::Degraded { .. } => DashboardRunState::Attached,
            AttachState::Failed { .. } => DashboardRunState::Failed,
        }
    }

    pub fn run_state(&self) -> (r: DashboardRunState)
        ensures
            r == self.shown_as(),
    {
        match self {
            AttachState::Detached { .. } => DashboardRunState::Detached,
            AttachState::Probing { .. } => DashboardRunState::Probing,
            AttachState::Attached { .. } => DashboardRunState::Attached,
            AttachState::Degraded { .. } => DashboardRunState::Attached,
            AttachState::Failed { .. } => DashboardRunState::Failed,
        }
    }

    pub fn binding(&self) -> (r: Option<&EngineBinding>)
        ensures
            r is Some <==> self.bound() is Some,
            r matches Some(binding) ==> self.bound() == Some(*binding),
    {
        match self {
            AttachState::Attached { binding } => Some(binding),
            AttachState::Degraded { binding, .. } => Some(binding),
            AttachState::Detached { .. } => None,
            AttachState::Probing { .. } => None,
            AttachState::Failed { .. } => None,
        }
    }

    pub fn is_attached(&self) -> (r: bool)
        ensures
            r == (self.bound() is Some),
    {
        self.binding().is_some()
    }
}

/// An attach state shows as attached exactly where an engine is bound.
pub proof fn attached_means_bound(state: AttachState)
    ensures
        state.shown_as() is Attached <==> state.bound() is Some,
{
}

#[derive(Debug, PartialEq, Eq)]
pub struct AttachTargetSnapshot {
    pub label: String,
    pub endpoint: String,
    pub mode: AttachMode,
}

impl Clone for AttachTargetSnapshot {
    fn clone(&self) -> (r: Self)
        ensures
            r == *self,
    {
        AttachTargetSnapshot {
            label: self.label.clone(),
            endpoint: self.endpoint.clone(),
            mode: self.mode,
        }
    }
}

/// What an attach state keeps of a saved target.
pub open spec fn snapshot_of(target: SavedAttachTarget) -> AttachTargetSnapshot {
    AttachTargetSnapshot { label: target.label, endpoint: target.endpoint, mode: target.mode }
}

impl<'a> FromSpecImpl<&'a SavedAttachTarget> for AttachTargetSnapshot {
    open spec fn obeys_from_spec() -> bool {
        true
    }

    open spec fn from_spec(target: &'a SavedAttachTarget) -> AttachTargetSnapshot {
        snapshot_of(*target)
    }
}

impl<'a> From<&'a SavedAttachTarget> for AttachTargetSnapshot {
    fn from(target: &'a SavedAttachTarget) -> (r: Self) {
        AttachTargetSnapshot {
            label: target.label.clone(),
            endpoint: target.endpoint.clone(),
            mode: target.mode,
        }
    }
}

#[derive(Debug, PartialEq, Eq)]
pub struct EngineBinding {
    pub profile: ForwarderProfile,
    pub ownership: EngineOwnership,
    pub target_label: Option<String>,
    pub attached_at_unix_s: Option<u64>,
}

impl Clone for EngineBinding {
    fn clone(&self) -> (r: Self)
        ensures
            r == *self,
    {
        EngineBinding {
            profile: self.profile.clone(),
            ownership: self.ownership,
            target_label: self.target_label.clone(),
            attached_at_unix_s: self.attached_at_unix_s,
        }
    }
}

impl EngineBinding {
    /// A fresh binding to a profile, with the ownership that its mode implies.
    pub open spec fn binds(self, profile: ForwarderProfile, platform: PlatformKind) -> bool {
        self == (EngineBinding {
            profile,
            ownership: EngineOwnership::implied(profile.attach_mode, platform),
            target_label: None,
            attached_at_unix_s: None,
        })
    }

    pub fn from_profile(profile: ForwarderProfile, platform: PlatformKind) -> (r: Self)
        ensures
            r.binds(profile, platform),
    {
        let ownership = EngineOwnership::inferred(profile.attach_mode, platform);
        EngineBinding { profile, ownership, target_label: None, attached_at_unix_s: None }
    }
}

#[derive(Clone, Copy, Debug, PartialEq, Eq, Structural)]
pub enum EngineOwnership {
    DashboardStarted,
    External,
    BrowserInPage,
    BrowserSharedWorker,
    ExternalCompanion,
    Relay,
    Unknown,
}

impl EngineOwnership {
    /// The ownership that an attach mode implies.
    pub open spec fn implied(mode: AttachMode, platform: PlatformKind) -> EngineOwnership {
        match mode {
            AttachMode::BrowserEngine => EngineOwnership::BrowserInPage,
            AttachMode::LocalDesktop => EngineOwnership::External,
            AttachMode::RemoteWeb => if platform is Browser {
                EngineOwnership::ExternalCompanion
            } else {
                EngineOwnership::External
            },
            AttachMode::Relay => EngineOwnership::Relay,
        }
    }

    pub fn inferred(mode: AttachMode, platform: PlatformKind) -> (r: Self)
        ensures
            r == EngineOwnership::implied(mode, platform),
    {
        match (mode, platform) {
            (AttachMode::BrowserEngine, _) => EngineOwnership::BrowserInPage,
            (AttachMode::LocalDesktop, _) => EngineOwnership::External,
            (AttachMode::RemoteWeb, PlatformKind::Browser) => EngineOwnership::ExternalCompanion,
            (AttachMode::RemoteWeb, PlatformKind::Desktop) => EngineOwnership::External,
            (AttachMode::Relay, _) => EngineOwnership::Relay,
        }
    }

    /// The text of [`EngineOwnership::label`].
    pub open spec fn label_text(self) -> Seq<char> {
        match self {
            Self::DashboardStarted => "dashboard-started"@,
            Self::External => "external"@,
            Self::BrowserInPage => "in-page engine"@,
            Self::BrowserSharedWorker => "shared-worker engine"@,
            Self::ExternalCompanion => "external companion"@,
            Self::Relay => "relay"@,
            Self::Unknown => "unknown ownership"@,
        }
    }

    pub fn label(self) -> (r: &'static str)
        ensures
            r@ == self.label_text(),
    {
        match self {
            Self::DashboardStarted => "dashboard-started",
            Self::External => "external",
            Self::BrowserInPage => "in-page engine",
            Self::BrowserSharedWorker => "shared-worker engine",
            Self::ExternalCompanion => "external companion",
            Self::Relay => "relay",
            Self::Unknown => "unknown ownership",
        }
    }

    pub fn can_stop(self) -> (r: bool)
        ensures
            r == (self is DashboardStarted),
    {
        self == EngineOwnership::DashboardStarted
    }
}

/// An engine that was only attached to is never taken for one that the
/// dashboard started, so it cannot be stopped.
pub proof fn inferred_engine_cannot_be_stopped(mode: AttachMode, platform: PlatformKind)
    ensures
        !(EngineOwnership::implied(mode, platform) is DashboardStarted),
{
}

#[derive(Clone, Copy, Debug, PartialEq, Eq, Structural)]
pub enum RouterLifecycleAction {
    StartRouter,
    StopDashboardStarted,
    Detach,
    Reattach,
    ShutdownSigned,
}

impl RouterLifecycleAction {
    /// The text of [`RouterLifecycleAction::label`].
    pub open spec fn label_text(self) -> Seq<char> {
        match self {
            Self::StartRouter => "Start Router"@,
            Self::StopDashboardStarted => "Stop"@,
            Self::Detach => "Detach"@,
            Self::Reattach => "Reattach"@,
            Self::ShutdownSigned => "Shutdown"@,
        }
    }

    pub fn label(self) -> (r: &'static str)
        ensures
            r@ == self.label_text(),
    {
        match self {
            Self::StartRouter => "Start Router",
            Self::StopDashboardStarted => "Stop",
            Self::Detach => "Detach",
            Self::Reattach => "Reattach",
            Self::ShutdownSigned => "Shutdown",
        }
    }
}

#[derive(Debug, PartialEq, Eq)]
pub struct LifecycleActionState {
    pub action: RouterLifecycleAction,
    pub enabled: bool,
    pub reason: Option<String>,
}

impl Clone for LifecycleActionState {
    fn clone(&self) -> (r: Self)
        ensures
            r == *self,
    {
        LifecycleActionState {
            action: self.action,
            enabled: self.enabled,
            reason: self.reason.clone(),
        }
    }
}

impl LifecycleActionState {
    /// The action, enabled where there is no blocker and else with the blocker as its reason.
    pub open spec fn is(self, action: RouterLifecycleAction, blocker: Option<Seq<char>>) -> bool {
        &&& self.action == action
        &&& self.enabled == (blocker is None)
        &&& text::opt_text(self.reason) == blocker
    }

    pub fn enabled(action: RouterLifecycleAction) -> (r: Self)
        ensures
            r.is(action, None),
    {
        LifecycleActionState { action, enabled: true, reason: None }
    }

    pub fn unavailable(action: RouterLifecycleAction, reason: &str) -> (r: Self)
        ensures
            r.is(action, Some(reason@)),
    {
        LifecycleActionState { action, enabled: false, reason: Some(reason.to_string()) }
    }
}

#[derive(Clone, Copy, Debug, PartialEq, Eq, Structural)]
pub enum StartRouterTab {
    QuickStart,
    BuildConfig,
    LoadToml,
    Presets,
    CurrentConfig,
}

impl StartRouterTab {
    pub const ALL: [Self; 5] = [
        Self::QuickStart,
        Self::BuildConfig,
        Self::LoadToml,
        Self::Presets,
        Self::CurrentConfig,
    ];

    /// The text of [`StartRouterTab::label`].
    pub open spec fn label_text(self) -> Seq<char> {
        match self {
            Self::QuickStart => "Quick start"@,
            Self::BuildConfig => "Build config"@,
            Self::LoadToml => "Load TOML"@,
            Self::Presets => "Presets"@,
            Self::CurrentConfig => "Current config"@,
        }
    }

    pub fn label(self) -> (r: &'static str)
        ensures
            r@ == self.label_text(),
    {
        match self {
            Self::QuickStart => "Quick start",
            Self::BuildConfig => "Build config",
            Self::LoadToml => "Load TOML",
            Self::Presets => "Presets",
            Self::CurrentConfig => "Current config",
        }
    }
}

#[derive(Debug, PartialEq, Eq)]
pub struct StartRouterModalModel {
    pub platform: PlatformKind,
    pub active_tab: StartRouterTab,
    pub draft: RouterConfigDraft,
    pub current_config: RouterConfigDraft,
    pub diff: Vec<ConfigDiff>,
    pub can_start: bool,
    pub blocker: Option<String>,
    pub preview_toml: String,
}

impl Clone for StartRouterModalModel {
    fn clone(&self) -> (r: Self)
        ensures
            r.diff@ == self.diff@,
            r.platform == self.platform,
            r.active_tab == self.active_tab,
            r.draft.same_as(self.draft),
            r.current_config.same_as(self.current_config),
            r.can_start == self.can_start,
            r.blocker == self.blocker,
            r.preview_toml == self.preview_toml,
    {
        let r = StartRouterModalModel {
            diff: self.diff.clone(),
            platform: self.platform,
            active_tab: self.active_tab,
            draft: self.draft.clone(),
            current_config: self.current_config.clone(),
            can_start: self.can_start,
            blocker: self.blocker.clone(),
            preview_toml: self.preview_toml.clone(),
        };
        assert(r.diff@ =~= self.diff@);
        r
    }
}

/// Why a router cannot be started from a rendered draft.
pub open spec fn start_blocker(
    platform: PlatformKind,
    rendered: Result<String, String>,
) -> Option<Seq<char>> {
    if platform is Browser {
        Some(
            "Browsers cannot spawn local ndn-fwd; attach to an in-page engine, remote web target, external companion, or relay."@,
        )
    } else {
        match rendered {
            Ok(_) => None,
            Err(err) => Some("Router config cannot be rendered: "@ + err@),
        }
    }
}

/// What the preview shows of a rendered draft.
pub open spec fn preview_text(rendered: Result<String, String>) -> Seq<char> {
    match rendered {
        Ok(toml) => toml@,
        Err(err) => "# render error: "@ + err@,
    }
}

impl StartRouterModalModel {
    /// The modal for a draft and what rendering the draft gave.
    pub fn new(
        platform: PlatformKind,
        active_tab: StartRouterTab,
        draft: RouterConfigDraft,
        current_config: RouterConfigDraft,
        rendered: Result<String, String>,
    ) -> (r: Self)
        ensures
            r.platform == platform,
            r.active_tab == active_tab,
            r.draft == draft,
            r.current_config == current_config,
            config::diff_texts(r.diff@) == draft.changes_from(current_config),
            r.can_start == (start_blocker(platform, rendered) is None),
            text::opt_text(r.blocker) == start_blocker(platform, rendered),
            r.preview_toml@ == preview_text(rendered),
    {
        let diff = draft.diff_from(&current_config);
        let (preview_toml, render_error) = match rendered {
            Ok(toml) => (toml, None),
            Err(err) => ("# render error: ".to_string().concat(err.as_str()), Some(err)),
        };
        let blocker: Option<String> = if !RouterConfigDraft::can_write(platform) {
            Some(
                "Browsers cannot spawn local ndn-fwd; attach to an in-page engine, remote web target, external companion, or relay.".to_string(),
            )
        } else {
            match render_error {
                Some(err) => Some(
                    "Router config cannot be rendered: ".to_string().concat(err.as_str()),
                ),
                None => None,
            }
        };
        StartRouterModalModel {
            platform,
            active_tab,
            draft,
            current_config,
            diff,
            can_start: blocker.is_none(),
            blocker,
            preview_toml,
        }
    }
}

#[derive(Debug, PartialEq, Eq)]
pub struct AttachFailure {
    pub message: String,
    pub recovery: String,
}

impl Clone for AttachFailure {
    fn clone(&self) -> (r: Self)
        ensures
            r == *self,
    {
        AttachFailure {
            message: self.message.clone(),
            recovery: self.recovery.clone(),
        }
    }
}

impl AttachFailure {
    pub fn new(message: &str, recovery: &str) -> (r: Self)
        ensures
            r.message@ == message@,
            r.recovery@ == recovery@,
    {
        AttachFailure { message: message.to_string(), recovery: recovery.to_string() }
    }
}

#[derive(Debug, PartialEq, Eq)]
pub struct DegradedReason {
    pub summary: String,
    pub next_action: Option<String>,
}

impl Clone for DegradedReason {
    fn clone(&self) -> (r: Self)
        ensures
            r == *self,
    {
        DegradedReason {
            summary: self.summary.clone(),
            next_action: self.next_action.clone(),
        }
    }
}

#[derive(Debug, PartialEq, Eq)]
pub struct OperationsHomeModel {
    pub run_state: DashboardRunState,
    pub attach_state: AttachState,
    pub selected_target: Option<AttachTargetSnapshot>,
    pub selected_target_status: Option<TargetPlatformStatus>,
    pub lifecycle_actions: Vec<LifecycleActionState>,
    pub capability_summary: CapabilitySummary,
}

impl Clone for OperationsHomeModel {
    fn clone(&self) -> (r: Self)
        ensures
            r.lifecycle_actions@ == self.lifecycle_actions@,
            r.run_state == self.run_state,
            r.attach_state == self.attach_state,
            r.selected_target == self.selected_target,
            r.selected_target_status == self.selected_target_status,
            r.capability_summary == self.capability_summary,
    {
        let r = OperationsHomeModel {
            lifecycle_actions: self.lifecycle_actions.clone(),
            run_state: self.run_state,
            attach_state: self.attach_state.clone(),
            selected_target: match &self.selected_target {
                Some(target) => Some(target.clone()),
                None => None,
            },
            selected_target_status: self.selected_target_status,
            capability_summary: self.capability_summary,
        };
        assert(r.lifecycle_actions@ =~= self.lifecycle_actions@);
        r
    }
}

impl OperationsHomeModel {
    pub fn new(
        platform: PlatformKind,
        attach_state: AttachState,
        capabilities: CapabilitySet,
        selected_target: Option<&SavedAttachTarget>,
    ) -> (r: Self)
        ensures
            r.run_state == attach_state.shown_as(),
            r.attach_state == attach_state,
            r.selected_target == (match selected_target {
                Some(target) => Some(snapshot_of(*target)),
                None => None,
            }),
            r.selected_target_status == status_of(selected_target, platform),
            are_lifecycle_actions(
                r.lifecycle_actions@,
                platform,
                attach_state,
                status_of(selected_target, platform),
            ),
            r.capability_summary == CapabilitySummary::summary(capabilities),
    {
        let selected_target_status = match selected_target {
            Some(target) => Some(target.platform_status(platform)),
            None => None,
        };
        let selected_target = match selected_target {
            Some(target) => Some(AttachTargetSnapshot::from(target)),
            None => None,
        };
        let lifecycle_actions = lifecycle_actions(platform, &attach_state, selected_target_status);
        OperationsHomeModel {
            run_state: attach_state.run_state(),
            attach_state,
            selected_target,
            selected_target_status,
            lifecycle_actions,
            capability_summary: CapabilitySummary::from(capabilities),
        }
    }

    pub fn action(&self, action: RouterLifecycleAction) -> (r: Option<&LifecycleActionState>)
        ensures
            match r {
                Some(found) => exists|i: int|
                    {
                        &&& 0 <= i < self.lifecycle_actions@.len()
                        &&& #[trigger] self.lifecycle_actions@[i] == *found
                        &&& found.action == action
                        &&& forall|j: int|
                            0 <= j < i ==> (#[trigger] self.lifecycle_actions@[j]).action != action
                    },
                None => forall|j: int|
                    0 <= j < self.lifecycle_actions@.len() ==> (
                    #[trigger] self.lifecycle_actions@[j]).action != action,
            },
    {
        let mut i: usize = 0;
        while i < self.lifecycle_actions.len()
            invariant
                i <= self.lifecycle_actions@.len(),
                forall|j: int|
                    0 <= j < i ==> (#[trigger] self.lifecycle_actions@[j]).action != action,
            decreases self.lifecycle_actions@.len() - i,
        {
            if self.lifecycle_actions[i].action == action {
                assert(self.lifecycle_actions@[i as int].action == action);
                return Some(&self.lifecycle_actions[i]);
            }
            i = i + 1;
        }
        None
    }
}

/// The status of the selected target on a platform.
pub open spec fn status_of(
    target: Option<&SavedAttachTarget>,
    platform: PlatformKind,
) -> Option<TargetPlatformStatus> {
    match target {
        Some(target) => Some(target.status_on(platform)),
        None => None,
    }
}

#[derive(Clone, Copy, Debug, PartialEq, Eq, Structural)]
pub struct CapabilitySummary {
    pub live_engine: bool,
    pub trust_available: bool,
    pub observe_available: bool,
    pub tools_available: bool,
}

impl CapabilitySummary {
    /// Which surfaces are available at all.
    pub open spec fn summary(capabilities: CapabilitySet) -> CapabilitySummary {
        CapabilitySummary {
            live_engine: capabilities.nfd_basic.available(),
            trust_available: capabilities.trust_context.available(),
            observe_available: capabilities.observability.available(),
            tools_available: capabilities.tools.available(),
        }
    }
}

impl FromSpecImpl<CapabilitySet> for CapabilitySummary {
    open spec fn obeys_from_spec() -> bool {
        true
    }

    open spec fn from_spec(capabilities: CapabilitySet) -> CapabilitySummary {
        CapabilitySummary::summary(capabilities)
    }
}

impl From<CapabilitySet> for CapabilitySummary {
    fn from(capabilities: CapabilitySet) -> (r: Self) {
        CapabilitySummary {
            live_engine: capabilities.nfd_basic.is_available(),
            trust_available: capabilities.trust_context.is_available(),
            observe_available: capabilities.observability.is_available(),
            tools_available: capabilities.tools.is_available(),
        }
    }
}

/// Why a router cannot be started here.
pub open spec fn start_router_blocker(platform: PlatformKind) -> Option<Seq<char>> {
    match platform {
        PlatformKind::Desktop => None,
        PlatformKind::Browser => Some(
            "Browsers cannot start local processes; use an in-page engine, shared-worker engine, external companion, remote web target, or relay."@,
        ),
    }
}

/// Why the engine cannot be stopped.
pub open spec fn stop_blocker(attach_state: AttachState) -> Option<Seq<char>> {
    match attach_state.bound() {
        Some(binding) => if binding.ownership is DashboardStarted {
            None
        } else {
            Some(
                "Stop is only available for dashboard-started engines; this engine is "@
                    + binding.ownership.label_text() + "."@,
            )
        },
        None => Some("Attach to a dashboard-started engine before Stop is available."@),
    }
}

/// Why the selected target cannot be attached to again.
pub open spec fn reattach_blocker(status: Option<TargetPlatformStatus>) -> Option<Seq<char>> {
    match status {
        Some(status) => if status is Available {
            None
        } else {
            Some("Selected target is "@ + status.label_text() + " on this platform."@)
        },
        None => Some("Choose an attach target first."@),
    }
}

/// Why there is nothing to detach from.
pub open spec fn detach_blocker(attach_state: AttachState) -> Option<Seq<char>> {
    if attach_state.bound() is Some {
        None
    } else {
        Some("There is no active engine binding to detach."@)
    }
}

/// Why no signed shutdown can be sent.
pub open spec fn shutdown_blocker(attach_state: AttachState) -> Option<Seq<char>> {
    if attach_state.bound() is Some {
        None
    } else {
        Some("Attach to an engine before sending a signed Shutdown command."@)
    }
}

/// The five actions in the order in which they are shown.
pub open spec fn are_lifecycle_actions(
    actions: Seq<LifecycleActionState>,
    platform: PlatformKind,
    attach_state: AttachState,
    status: Option<TargetPlatformStatus>,
) -> bool {
    &&& actions.len() == 5
    &&& actions[0].is(RouterLifecycleAction::StartRouter, start_router_blocker(platform))
    &&& actions[1].is(RouterLifecycleAction::Reattach, reattach_blocker(status))
    &&& actions[2].is(RouterLifecycleAction::Detach, detach_blocker(attach_state))
    &&& actions[3].is(RouterLifecycleAction::StopDashboardStarted, stop_blocker(attach_state))
    &&& actions[4].is(RouterLifecycleAction::ShutdownSigned, shutdown_blocker(attach_state))
}

/// The lifecycle actions, each enabled or with the reason why it is not.
pub fn lifecycle_actions(
    platform: PlatformKind,
    attach_state: &AttachState,
    selected_target_status: Option<TargetPlatformStatus>,
) -> (r: Vec<LifecycleActionState>)
    ensures
        are_lifecycle_actions(r@, platform, *attach_state, selected_target_status),
{
    let start = match platform {
        PlatformKind::Desktop => LifecycleActionState::enabled(RouterLifecycleAction::StartRouter),
        PlatformKind::Browser => LifecycleActionState::unavailable(
            RouterLifecycleAction::StartRouter,
            "Browsers cannot start local processes; use an in-page engine, shared-worker engine, external companion, remote web target, or relay.",
        ),
    };
    let stop = match attach_state.binding() {
        Some(binding) => {
            let ownership = binding.ownership;
            if ownership.can_stop() {
                LifecycleActionState::enabled(RouterLifecycleAction::StopDashboardStarted)
            } else {
                LifecycleActionState::unavailable(
                    RouterLifecycleAction::StopDashboardStarted,
                    "Stop is only available for dashboard-started engines; this engine is ".to_string().concat(
                    ownership.label()).concat(".").as_str(),
                )
            }
        },
        None => LifecycleActionState::unavailable(
            RouterLifecycleAction::StopDashboardStarted,
            "Attach to a dashboard-started engine before Stop is available.",
        ),
    };
    let reattach = match selected_target_status {
        Some(status) => {
            if status.is_available() {
                LifecycleActionState::enabled(RouterLifecycleAction::Reattach)
            } else {
                LifecycleActionState::unavailable(
                    RouterLifecycleAction::Reattach,
                    "Selected target is ".to_string().concat(status.label()).concat(
                        " on this platform.",
                    ).as_str(),
                )
            }
        },
        None => LifecycleActionState::unavailable(
            RouterLifecycleAction::Reattach,
            "Choose an attach target first.",
        ),
    };
    let detach = if attach_state.is_attached() {
        LifecycleActionState::enabled(RouterLifecycleAction::Detach)
    } else {
        LifecycleActionState::unavailable(
            RouterLifecycleAction::Detach,
            "There is no active engine binding to detach.",
        )
    };
    let shutdown = if attach_state.is_attached() {
        LifecycleActionState::enabled(RouterLifecycleAction::ShutdownSigned)
    } else {
        LifecycleActionState::unavailable(
            RouterLifecycleAction::ShutdownSigned,
            "Attach to an engine before sending a signed Shutdown command.",
        )
    };
    vec![start, reattach, detach, stop, shutdown]
}

/// Every action is listed, exactly once, and is enabled exactly where it has no
/// reason against it.
pub proof fn every_action_is_listed_once(
    actions: Seq<LifecycleActionState>,
    platform: PlatformKind,
    attach_state: AttachState,
    status: Option<TargetPlatformStatus>,
    action: RouterLifecycleAction,
)
    requires
        are_lifecycle_actions(actions, platform, attach_state, status),
    ensures
        exists|i: int| 0 <= i < actions.len() && (#[trigger] actions[i]).action == action,
        forall|i: int, j: int|
            0 <= i < j < actions.len() ==> (#[trigger] actions[i]).action != (
            #[trigger] actions[j]).action,
        forall|i: int|
            0 <= i < actions.len() ==> ((#[trigger] actions[i]).enabled <==> actions[i].reason is None),
{
    let k: int = match action {
        RouterLifecycleAction::StartRouter => 0,
        RouterLifecycleAction::Reattach => 1,
        RouterLifecycleAction::Detach => 2,
        RouterLifecycleAction::StopDashboardStarted => 3,
        RouterLifecycleAction::ShutdownSigned => 4,
    };
    assert(actions[k].action == action);
}

/// Stop is offered exactly for an engine that the dashboard started, a signed
/// shutdown for every engine that is attached.
pub proof fn stop_needs_a_dashboard_started_engine(
    actions: Seq<LifecycleActionState>,
    platform: PlatformKind,
    attach_state: AttachState,
    status: Option<TargetPlatformStatus>,
    i: int,
)
    requires
        are_lifecycle_actions(actions, platform, attach_state, status),
        0 <= i < actions.len(),
    ensures
        actions[i].action is StopDashboardStarted ==> (actions[i].enabled <==> (
        attach_state.bound() matches Some(binding) && binding.ownership is DashboardStarted)),
        actions[i].action is ShutdownSigned ==> (actions[i].enabled <==> attach_state.bound() is Some),
        actions[i].action is StartRouter ==> (actions[i].enabled <==> platform is Desktop),
{
}

// ---------------------------------------------------------------------------
// Laws
// ---------------------------------------------------------------------------

/// An engine is bound exactly while the dashboard is attached to it, degraded or
/// not; how the dashboard runs is read off that.
pub proof fn running_follows_attaching(state: AttachState)
    ensures
        state.bound() is Some <==> state is Attached || state is Degraded,
        state matches AttachState::Attached { binding } ==> state.bound() == Some(binding),
        state matches AttachState::Degraded { binding, reason } ==> state.bound() == Some(binding),
        state.shown_as() is Attached <==> state is Attached || state is Degraded,
        state.shown_as() is Detached <==> state is Detached,
        state.shown_as() is Probing <==> state is Probing,
        state.shown_as() is Failed <==> state is Failed,
{
}

/// Each action is enabled by its own condition: a router is started on a desktop
/// only, a target is attached again only where the platform reaches it, an
/// engine is detached or shut down only while one is bound, and stopped only
/// where the dashboard started it.
pub proof fn actions_are_enabled_by_their_condition(
    actions: Seq<LifecycleActionState>,
    platform: PlatformKind,
    attach_state: AttachState,
    status: Option<TargetPlatformStatus>,
    i: int,
)
    requires
        are_lifecycle_actions(actions, platform, attach_state, status),
        0 <= i < actions.len(),
    ensures
        ({
            let bound = attach_state is Attached || attach_state is Degraded;
            let started = (attach_state matches AttachState::Attached { binding }
                && binding.ownership is DashboardStarted) || (
            attach_state matches AttachState::Degraded { binding, reason }
                && binding.ownership is DashboardStarted);
            &&& actions[i].action is StartRouter ==> (actions[i].enabled <==> platform is Desktop)
            &&& actions[i].action is Reattach ==> (actions[i].enabled <==> status == Some(
                TargetPlatformStatus::Available,
            ))
            &&& actions[i].action is Detach ==> (actions[i].enabled <==> bound)
            &&& actions[i].action is ShutdownSigned ==> (actions[i].enabled <==> bound)
            &&& actions[i].action is StopDashboardStarted ==> (actions[i].enabled <==> started)
            &&& actions[i].reason is Some <==> !actions[i].enabled
        }),
{
    assert(i == 0 || i == 1 || i == 2 || i == 3 || i == 4);
}

/// Who runs an engine goes by how it is reached: the page itself, a relay, or
/// someone outside, which in a browser is a companion.
pub proof fn ownership_goes_by_how_it_is_reached(mode: AttachMode, platform: PlatformKind)
    ensures
        ({
            let owner = EngineOwnership::implied(mode, platform);
            &&& owner is BrowserInPage <==> mode is BrowserEngine
            &&& owner is Relay <==> mode is Relay
            &&& owner is ExternalCompanion <==> mode is RemoteWeb && platform is Browser
            &&& owner is External <==> mode is LocalDesktop || (mode is RemoteWeb
                && platform is Desktop)
        }),
{
}

/// A router can be started exactly on a desktop with a config that renders; a
/// render error is told.
pub proof fn starting_needs_a_desktop_and_a_config(
    platform: PlatformKind,
    rendered: Result<String, String>,
)
    ensures
        start_blocker(platform, rendered) is None <==> platform is Desktop && rendered is Ok,
        platform is Desktop ==> (rendered matches Err(err) ==> start_blocker(platform, rendered)
            == Some("Router config cannot be rendered: "@ + err@)),
        rendered matches Ok(toml) ==> preview_text(rendered) == toml@,
        rendered matches Err(err) ==> preview_text(rendered) == "# render error: "@ + err@,
{
}

/// The summary tells of each surface whether it is there at all, also where it
/// is read-only or degraded.
pub proof fn summary_tells_what_is_there(capabilities: CapabilitySet)
    ensures
        ({
            let summary = CapabilitySummary::summary(capabilities);
            &&& summary.live_engine <==> !(capabilities.nfd_basic is Unsupported) && !(
            capabilities.nfd_basic is Disabled)
            &&& summary.trust_available <==> !(capabilities.trust_context is Unsupported) && !(
            capabilities.trust_context is Disabled)
            &&& summary.observe_available <==> !(capabilities.observability is Unsupported) && !(
            capabilities.observability is Disabled)
            &&& summary.tools_available <==> !(capabilities.tools is Unsupported) && !(
            capabilities.tools is Disabled)
        }),
{
}

/// A binding is for the profile that was probed, and nothing is known yet of
/// its label or time.
pub proof fn bindings_hold_the_profile(
    binding: EngineBinding,
    profile: ForwarderProfile,
    platform: PlatformKind,
)
    requires
        binding.binds(profile, platform),
    ensures
        binding.profile == profile,
        binding.ownership == EngineOwnership::implied(profile.attach_mode, platform),
        binding.target_label is None && binding.attached_at_unix_s is None,
{
}

/// What is kept of a saved target is its label, its endpoint and its mode.
pub proof fn snapshots_keep_the_target(target: SavedAttachTarget)
    ensures
        snapshot_of(target).label@ == target.label@,
        snapshot_of(target).endpoint@ == target.endpoint@,
        snapshot_of(target).mode == target.mode,
{
}

} // verus!
