//! The session of the console: which forwarder it is attached to, and how
//! attaching, starting, and stopping change that.

use vstd::prelude::*;

use crate::client;
use crate::client::{
    state_from_probe, AttachError, DashboardClient, DesktopLocalClient, MockDashboardClient,
    ProbeOutcome, ProbeResult, ProbeTranscript,
};
use crate::config::RouterConfigDraft;
use crate::model;
use crate::model::{
    AttachMode, AttachTarget, DashboardPreferences, DashboardState, ForwarderKind, PlatformKind,
    SavedAttachTarget,
};
use crate::number;
use crate::number::decimal;
use crate::operations::{AttachState, DashboardRunState, EngineBinding, EngineOwnership};
use crate::shell;
use crate::shell::{toggle, ForwarderActionNotice, Tone};
use crate::text;
use crate::text::{contains, same_text};

verus! {

/// When a probe of the console counts as made.
pub const PROBED_AT_UNIX_S: u64 = 1_717_300_000;

/// What the console knows of its attachment.
#[derive(Debug)]
pub struct Session {
    pub platform: PlatformKind,
    pub state: DashboardState,
    pub preferences: DashboardPreferences,
    pub last_probe: Option<ProbeTranscript>,
    pub last_probe_at: Option<u64>,
    pub last_attach_error: Option<String>,
    pub notice: Option<ForwarderActionNotice>,
}

impl Clone for Session {
    fn clone(&self) -> (r: Self)
        ensures
            r.platform == self.platform,
            r.state == self.state,
            r.preferences.same_as(self.preferences),
            match self.last_probe {
                Some(probe) => r.last_probe matches Some(copy) && copy.steps@ == probe.steps@,
                None => r.last_probe is None,
            },
            r.last_probe_at == self.last_probe_at,
            r.last_attach_error == self.last_attach_error,
            r.notice == self.notice,
    {
        Session {
            platform: self.platform,
            state: self.state.clone(),
            preferences: self.preferences.clone(),
            last_probe: match &self.last_probe {
                Some(probe) => Some(probe.clone()),
                None => None,
            },
            last_probe_at: self.last_probe_at,
            last_attach_error: self.last_attach_error.clone(),
            notice: match &self.notice {
                Some(notice) => Some(notice.clone()),
                None => None,
            },
        }
    }
}

/// The state that a probe leads to. An owner that is known takes the place of
/// the one that the attach mode implies, and names the target.
pub open spec fn state_after(
    before: DashboardState,
    platform: PlatformKind,
    probe: ProbeResult,
    target: Option<SavedAttachTarget>,
    ownership: Option<EngineOwnership>,
) -> DashboardState {
    DashboardState {
        platform,
        density: before.density,
        run_state: DashboardRunState::Attached,
        attach_state: AttachState::Attached {
            binding: EngineBinding {
                profile: probe.profile,
                ownership: match ownership {
                    Some(owner) => owner,
                    None => EngineOwnership::implied(probe.profile.attach_mode, platform),
                },
                target_label: if ownership is Some {
                    match target {
                        Some(target) => Some(target.label),
                        None => None,
                    }
                } else {
                    None
                },
                attached_at_unix_s: None,
            },
        },
        profile: probe.profile,
        trust: model::trust_posture(probe.profile.capabilities, probe.has_identity),
        observe: model::observe_posture(probe.profile.capabilities),
    }
}

impl Session {
    /// The session after a probe of a target has answered.
    pub open spec fn attaches(
        self,
        before: Session,
        probe: ProbeResult,
        target: Option<SavedAttachTarget>,
        ownership: Option<EngineOwnership>,
    ) -> bool {
        &&& self.platform == before.platform
        &&& self.state == state_after(before.state, before.platform, probe, target, ownership)
        &&& self.preferences.platform == before.preferences.platform
        &&& self.preferences.density == before.state.density
        &&& match target {
            Some(target) => {
                let entry = model::connected(target, PROBED_AT_UNIX_S);
                &&& self.preferences.selected_target_id == Some(target.id)
                &&& self.preferences.saved_targets@ == model::upserted(
                    before.preferences.saved_targets@,
                    entry,
                )
                &&& self.preferences.recent_targets@ == model::at_most(
                    model::sorted_by_latest(
                        model::upserted(before.preferences.recent_targets@, entry),
                    ),
                    5,
                )
            },
            None => {
                &&& self.preferences.selected_target_id == before.preferences.selected_target_id
                &&& self.preferences.saved_targets@ == before.preferences.saved_targets@
                &&& self.preferences.recent_targets@ == before.preferences.recent_targets@
            },
        }
        &&& self.last_probe matches Some(transcript) && transcript.steps@ == probe.transcript.steps@
        &&& self.last_probe_at == Some(PROBED_AT_UNIX_S)
        &&& self.last_attach_error is None
    }

    /// The session after an attempt to attach has failed.
    pub open spec fn fails(self, before: Session, message: Seq<char>) -> bool {
        &&& self.last_attach_error matches Some(error) && error@ == message
        &&& self.platform == before.platform
        &&& self.state == before.state
        &&& self.preferences == before.preferences
        &&& self.last_probe == before.last_probe
        &&& self.last_probe_at == before.last_probe_at
        &&& self.notice == before.notice
    }

    /// Nothing but the notice differs.
    pub open spec fn only_notes(self, before: Session) -> bool {
        &&& self.platform == before.platform
        &&& self.state == before.state
        &&& self.preferences == before.preferences
        &&& self.last_probe == before.last_probe
        &&& self.last_probe_at == before.last_probe_at
        &&& self.last_attach_error == before.last_attach_error
    }

    /// The notice says this.
    pub open spec fn notes(self, tone: Tone, title: Seq<char>, detail: Seq<char>) -> bool {
        self.notice matches Some(notice) && notice.says(tone, title, detail)
    }

    /// A detached session in the density of its preferences.
    pub fn new(platform: PlatformKind, preferences: DashboardPreferences) -> (r: Self)
        ensures
            r.platform == platform,
            r.state.platform == platform,
            r.state.density == preferences.density,
            r.state.run_state is Detached,
            r.state.attach_state == (AttachState::Detached { last_error: None }),
            model::fixtures::is_unsupported_profile(r.state.profile),
            r.state.trust is Unsupported,
            r.state.observe is Unsupported,
            r.preferences == preferences,
            r.last_probe is None,
            r.last_probe_at is None,
            r.last_attach_error is None,
            r.notice is None,
    {
        let mut state = DashboardState::detached(platform);
        state.density = preferences.density;
        Session {
            platform,
            state,
            preferences,
            last_probe: None,
            last_probe_at: None,
            last_attach_error: None,
            notice: None,
        }
    }

    /// Switches the density, in the state and in the preferences.
    pub fn toggle_density(&mut self)
        ensures
            final(self).state == (DashboardState {
                density: shell::toggled(old(self).state.density),
                ..old(self).state
            }),
            final(self).preferences == (DashboardPreferences {
                density: shell::toggled(old(self).state.density),
                ..old(self).preferences
            }),
            final(self).platform == old(self).platform,
            final(self).last_probe == old(self).last_probe,
            final(self).last_probe_at == old(self).last_probe_at,
            final(self).last_attach_error == old(self).last_attach_error,
            final(self).notice == old(self).notice,
    {
        let next = toggle(self.state.density);
        self.state.density = next;
        self.preferences.density = next;
    }

    /// Selects the saved target with this id.
    pub fn select_target(&mut self, id: &str)
        ensures
            text::opt_text(final(self).preferences.selected_target_id) == (if model::has_target(
                old(self).preferences.saved_targets@,
                id@,
            ) {
                Some(id@)
            } else {
                text::opt_text(old(self).preferences.selected_target_id)
            }),
            final(self).preferences.platform == old(self).preferences.platform,
            final(self).preferences.density == old(self).preferences.density,
            final(self).preferences.saved_targets == old(self).preferences.saved_targets,
            final(self).preferences.recent_targets == old(self).preferences.recent_targets,
            final(self).state == old(self).state,
            final(self).platform == old(self).platform,
            final(self).last_probe == old(self).last_probe,
            final(self).last_probe_at == old(self).last_probe_at,
            final(self).last_attach_error == old(self).last_attach_error,
            final(self).notice == old(self).notice,
    {
        self.preferences.select(id);
    }

    /// Takes the answer of a probe into the session. The preferences are then
    /// to be saved.
    pub fn apply_probe_result(
        &mut self,
        probe: ProbeResult,
        connected_target: Option<SavedAttachTarget>,
        ownership: Option<EngineOwnership>,
    )
        ensures
            final(self).attaches(*old(self), probe, connected_target, ownership),
            final(self).notice == old(self).notice,
    {
        let density = self.state.density;
        let transcript = probe.transcript.clone();
        let mut next = state_from_probe(self.platform, probe);
        next.density = density;
        if let Some(owner) = ownership {
            if let AttachState::Attached { binding } = next.attach_state {
                let mut binding = binding;
                binding.ownership = owner;
                if let Some(target) = &connected_target {
                    binding.target_label = Some(target.label.clone());
                }
                next.attach_state = AttachState::Attached { binding };
            }
        }
        self.preferences.density = density;
        if let Some(target) = connected_target {
            self.preferences.remember_connected(target, PROBED_AT_UNIX_S);
        }
        self.last_probe = Some(transcript);
        self.last_probe_at = Some(PROBED_AT_UNIX_S);
        self.last_attach_error = None;
        self.state = next;
    }

    fn fail(&mut self, message: &str)
        ensures
            final(self).fails(*old(self), message@),
    {
        self.last_attach_error = Some(message.to_string());
    }

    /// Attaches to the selected target, and says whether the preferences are to
    /// be saved. Without a selection an explanation is shown where asked for.
    pub fn attach_selected(&mut self, explain: bool) -> (save: bool)
        ensures
            match old(self).preferences.selected() {
                Some(target) => exists|answer: Result<ProbeResult, AttachError>|
                    {
                        &&& #[trigger] client::mock_answer(answer, target.target())
                        &&& match answer {
                            Ok(probe) => save && final(self).notice is None && final(self).attaches(
                                *old(self),
                                probe,
                                Some(target),
                                None,
                            ),
                            Err(error) => !save && final(self).fails(
                                *old(self),
                                error.message_text(),
                            ),
                        }
                    },
                None => !save && if explain {
                    final(self).fails(*old(self), "Select an attach target first."@)
                } else {
                    *final(self) == *old(self)
                },
            },
    {
        let target = match self.preferences.selected_target() {
            Some(target) => target.clone(),
            None => {
                if explain {
                    self.fail("Select an attach target first.");
                }
                return false;
            },
        };
        let client = MockDashboardClient::new(self.platform);
        let answer = client.probe(&target.attach_target());
        assert(client::mock_answer(answer, target.target()));
        match answer {
            Ok(probe) => {
                self.apply_probe_result(probe, Some(target), None);
                self.notice = None;
                true
            },
            Err(error) => {
                self.fail(error.message());
                false
            },
        }
    }

    /// Attaches to the first target of the platform, and says whether the
    /// preferences are to be saved. A failure is shown where asked for.
    pub fn attach_default(&mut self, explain: bool) -> (save: bool)
        ensures
            exists|targets: Seq<AttachTarget>, answer: Result<ProbeResult, AttachError>|
                {
                    &&& #[trigger] client::are_mock_targets(targets, old(self).platform)
                    &&& #[trigger] client::mock_answer(answer, targets[0])
                    &&& match answer {
                        Ok(probe) => save && final(self).notice is None && final(self).attaches(
                            *old(self),
                            probe,
                            None,
                            None,
                        ),
                        Err(error) => !save && if explain {
                            final(self).fails(*old(self), error.message_text())
                        } else {
                            *final(self) == *old(self)
                        },
                    }
                },
    {
        let client = MockDashboardClient::new(self.platform);
        let targets = client.attach_targets();
        let answer = client.probe(&targets[0]);
        assert(client::are_mock_targets(targets@, self.platform));
        assert(client::mock_answer(answer, targets@[0]));
        match answer {
            Ok(probe) => {
                self.apply_probe_result(probe, None, None);
                self.notice = None;
                true
            },
            Err(error) => {
                if explain {
                    self.fail(error.message());
                }
                false
            },
        }
    }

    /// Attaches to the first saved target with this label where there is one
    /// and it answers, and says whether the preferences are to be saved.
    pub fn attach_labelled(&mut self, label: &str) -> (save: bool)
        ensures
            match labelled(old(self).preferences.saved_targets@, label@) {
                Some(target) => exists|answer: Result<ProbeResult, AttachError>|
                    {
                        &&& #[trigger] client::mock_answer(answer, target.target())
                        &&& match answer {
                            Ok(probe) => save && final(self).notice == old(self).notice && final(self).attaches(*old(self), probe, Some(target), None),
                            Err(_) => !save && *final(self) == *old(self),
                        }
                    },
                None => !save && *final(self) == *old(self),
            },
    {
        let target = match find_labelled(&self.preferences.saved_targets, label) {
            Some(target) => target,
            None => {
                return false;
            },
        };
        let client = MockDashboardClient::new(self.platform);
        let answer = client.probe(&target.attach_target());
        assert(client::mock_answer(answer, target.target()));
        match answer {
            Ok(probe) => {
                self.apply_probe_result(probe, Some(target), None);
                true
            },
            Err(_) => false,
        }
    }

    /// Shows the stand-in for a native forwarder, in the density of the session.
    pub fn show_fixture(&mut self)
        ensures
            final(self).state.density == old(self).state.density,
            final(self).state.platform == old(self).platform,
            final(self).state.run_state is Attached,
            final(self).state.attach_state matches AttachState::Attached { binding }
                && model::fixtures::is_ndnrs_profile(binding.profile, old(self).platform)
                && binding.binds(binding.profile, old(self).platform),
            model::fixtures::is_ndnrs_profile(final(self).state.profile, old(self).platform),
            final(self).state.trust is Valid,
            final(self).state.observe is Enabled,
            final(self).last_probe is None,
            final(self).last_probe_at is None,
            final(self).last_attach_error is None,
            final(self).platform == old(self).platform,
            final(self).preferences == old(self).preferences,
            final(self).notice == old(self).notice,
    {
        let density = self.state.density;
        let mut next = DashboardState::mock_ndnrs(self.platform);
        next.density = density;
        self.last_probe = None;
        self.last_probe_at = None;
        self.last_attach_error = None;
        self.state = next;
    }

    /// Notes how stopping the local forwarder went.
    pub fn stop_finished(&mut self, outcome: Result<String, String>)
        ensures
            final(self).only_notes(*old(self)),
            match outcome {
                Ok(message) => final(self).notes(
                    Tone::Neutral,
                    "Local ndn-fwd stopped"@,
                    message@,
                ),
                Err(err) => final(self).notes(Tone::Bad, "Could not stop ndn-fwd"@, err@),
            },
    {
        self.notice = Some(
            match outcome {
                Ok(message) => ForwarderActionNotice::neutral(
                    "Local ndn-fwd stopped",
                    message.as_str(),
                ),
                Err(err) => ForwarderActionNotice::bad("Could not stop ndn-fwd", err.as_str()),
            },
        );
    }

    /// Notes that a router configuration could not be read.
    pub fn start_refused(&mut self, err: &str)
        ensures
            final(self).only_notes(*old(self)),
            final(self).notes(
                Tone::Bad,
                "Could not start ndn-fwd"@,
                "Router TOML is invalid: "@ + err@,
            ),
    {
        let detail = "Router TOML is invalid: ".to_string().concat(err);
        self.notice = Some(ForwarderActionNotice::bad("Could not start ndn-fwd", detail.as_str()));
    }

    /// Attaches to the forwarder that the console has started from a draft.
    fn attach_started(&mut self, draft: &RouterConfigDraft) -> (r: Result<SavedAttachTarget, String>)
        ensures
            exists|target: SavedAttachTarget, answer: Result<ProbeResult, AttachError>|
                {
                    &&& #[trigger] started_from(target, *draft)
                    &&& #[trigger] desktop_answer(answer, target.target())
                    &&& match answer {
                        Ok(probe) => r == Ok::<SavedAttachTarget, String>(target) && final(self).attaches(
                            *old(self),
                            probe,
                            Some(target),
                            Some(EngineOwnership::DashboardStarted),
                        ) && final(self).notice == old(self).notice,
                        Err(error) => (r matches Err(message) && message@ == error.message_text())
                            && *final(self) == *old(self),
                    }
                },
    {
        let target = dashboard_started_target(draft);
        let client = DesktopLocalClient { socket: draft.management_socket.clone() };
        let answer = client.probe(&target.attach_target());
        assert(started_from(target, *draft));
        assert(desktop_answer(answer, target.target()));
        match answer {
            Ok(probe) => {
                self.apply_probe_result(
                    probe,
                    Some(target.clone()),
                    Some(EngineOwnership::DashboardStarted),
                );
                Ok(target)
            },
            Err(error) => Err(error.message().to_string()),
        }
    }

    /// Takes in how starting the local forwarder from a draft went, attaches to
    /// it where it runs, and says whether the preferences are to be saved.
    pub fn start_finished(
        &mut self,
        draft: &RouterConfigDraft,
        launched: Result<LaunchedForwarder, String>,
    ) -> (save: bool)
        ensures
            match launch_state(launched) {
                LaunchState::Stopped => {
                    &&& !save
                    &&& final(self).only_notes(*old(self))
                    &&& launched matches Err(err) && final(self).notes(
                        Tone::Bad,
                        "Could not start ndn-fwd"@,
                        err@,
                    )
                },
                _ => exists|target: SavedAttachTarget, answer: Result<ProbeResult, AttachError>|
                    {
                        &&& #[trigger] started_from(target, *draft)
                        &&& #[trigger] desktop_answer(answer, target.target())
                        &&& match answer {
                            Ok(probe) => save && final(self).attaches(
                                *old(self),
                                probe,
                                Some(target),
                                Some(EngineOwnership::DashboardStarted),
                            ),
                            Err(_) => !save && final(self).only_notes(*old(self)),
                        }
                        &&& final(self).notes(
                            if answer is Ok {
                                Tone::Good
                            } else {
                                Tone::Bad
                            },
                            start_title(launched, answer is Ok),
                            start_detail(launched, *draft, answer),
                        )
                    },
            },
    {
        match launched {
            Ok(launch) => {
                let started = "pid ".to_string().concat(decimal(launch.pid).as_str()).concat(
                    " using ",
                ).concat(launch.config_path.as_str());
                match self.attach_started(draft) {
                    Ok(target) => {
                        let detail = started.concat("; attached through ").concat(
                            target.endpoint.as_str(),
                        ).concat(".");
                        self.notice = Some(
                            ForwarderActionNotice::good(
                                "Local ndn-fwd started and attached",
                                detail.as_str(),
                            ),
                        );
                        true
                    },
                    Err(err) => {
                        let detail = started.concat("; probe ").concat(
                            draft.management_socket.as_str(),
                        ).concat(" failed: ").concat(err.as_str()).concat(
                            ". Check the management socket and attach the target from Operations or Settings.",
                        );
                        self.notice = Some(
                            ForwarderActionNotice::bad(
                                "Local ndn-fwd started; attach failed",
                                detail.as_str(),
                            ),
                        );
                        false
                    },
                }
            },
            Err(err) => {
                if !contains(err.as_str(), "already running from this dashboard") {
                    self.notice = Some(
                        ForwarderActionNotice::bad("Could not start ndn-fwd", err.as_str()),
                    );
                    return false;
                }
                match self.attach_started(draft) {
                    Ok(target) => {
                        let detail = err.concat("; attached through ").concat(
                            target.endpoint.as_str(),
                        ).concat(".");
                        self.notice = Some(
                            ForwarderActionNotice::good(
                                "Attached to dashboard-started ndn-fwd",
                                detail.as_str(),
                            ),
                        );
                        true
                    },
                    Err(probe_err) => {
                        let detail = err.concat("; probe ").concat(
                            draft.management_socket.as_str(),
                        ).concat(" failed: ").concat(probe_err.as_str()).concat(
                            ". Stop it or repair the selected management socket.",
                        );
                        self.notice = Some(
                            ForwarderActionNotice::bad(
                                "Dashboard-started ndn-fwd is running; attach failed",
                                detail.as_str(),
                            ),
                        );
                        false
                    },
                }
            },
        }
    }
}

/// The first target with this label.
pub open spec fn labelled(targets: Seq<SavedAttachTarget>, label: Seq<char>) -> Option<
    SavedAttachTarget,
>
    decreases targets.len(),
{
    if targets.len() == 0 {
        None
    } else if targets[0].label@ == label {
        Some(targets[0])
    } else {
        labelled(targets.drop_first(), label)
    }
}

fn find_labelled(targets: &Vec<SavedAttachTarget>, label: &str) -> (r: Option<SavedAttachTarget>)
    ensures
        r == labelled(targets@, label@),
{
    assert(targets@.skip(0) =~= targets@);
    let mut i: usize = 0;
    while i < targets.len()
        invariant
            i <= targets@.len(),
            labelled(targets@, label@) == labelled(targets@.skip(i as int), label@),
        decreases targets@.len() - i,
    {
        if same_text(targets[i].label.as_str(), label) {
            return Some(targets[i].clone());
        }
        assert(targets@.skip(i as int).drop_first() =~= targets@.skip(i + 1));
        i = i + 1;
    }
    None
}

/// A forwarder that the console has started.
#[derive(Debug, PartialEq, Eq)]
pub struct LaunchedForwarder {
    pub pid: u64,
    pub config_path: String,
}

/// Whether a local forwarder runs after an attempt to start one.
pub enum LaunchState {
    Started,
    AlreadyRunning,
    Stopped,
}

/// Reads off an attempt whether a local forwarder runs.
pub open spec fn launch_state(launched: Result<LaunchedForwarder, String>) -> LaunchState {
    match launched {
        Ok(_) => LaunchState::Started,
        Err(err) => if text::occurs(err@, "already running from this dashboard"@) {
            LaunchState::AlreadyRunning
        } else {
            LaunchState::Stopped
        },
    }
}

/// The title of the notice on a forwarder that runs.
pub open spec fn start_title(
    launched: Result<LaunchedForwarder, String>,
    attached: bool,
) -> Seq<char> {
    match (launched is Ok, attached) {
        (true, true) => "Local ndn-fwd started and attached"@,
        (true, false) => "Local ndn-fwd started; attach failed"@,
        (false, true) => "Attached to dashboard-started ndn-fwd"@,
        (false, false) => "Dashboard-started ndn-fwd is running; attach failed"@,
    }
}

/// How the notice tells the forwarder that runs.
pub open spec fn launch_text(launched: Result<LaunchedForwarder, String>) -> Seq<char> {
    match launched {
        Ok(launch) => "pid "@ + number::decimal_text(launch.pid as nat) + " using "@
            + launch.config_path@,
        Err(err) => err@,
    }
}

/// The detail of the notice on a forwarder that runs.
pub open spec fn start_detail(
    launched: Result<LaunchedForwarder, String>,
    draft: RouterConfigDraft,
    answer: Result<ProbeResult, AttachError>,
) -> Seq<char> {
    match answer {
        Ok(_) => launch_text(launched) + "; attached through "@ + draft.management_socket@ + "."@,
        Err(error) => launch_text(launched) + "; probe "@ + draft.management_socket@ + " failed: "@
            + error.message_text() + (if launched is Ok {
            ". Check the management socket and attach the target from Operations or Settings."@
        } else {
            ". Stop it or repair the selected management socket."@
        }),
    }
}

/// The target of a forwarder that the console has started from a draft.
pub open spec fn started_from(target: SavedAttachTarget, draft: RouterConfigDraft) -> bool {
    &&& target.target().is(
        "dashboard-started ndn-fwd"@,
        draft.management_socket@,
        AttachMode::LocalDesktop,
        Some(ForwarderKind::NdnRs),
    )
    &&& target.saves(target.target(), false, None)
}

/// What probing a local forwarder gives.
pub open spec fn desktop_answer(
    answer: Result<ProbeResult, AttachError>,
    target: AttachTarget,
) -> bool {
    client::reads_as(
        answer,
        target,
        client::native_steps(ProbeOutcome::Answered, ProbeOutcome::Answered),
        true,
    )
}

pub fn dashboard_started_target(draft: &RouterConfigDraft) -> (r: SavedAttachTarget)
    ensures
        started_from(r, *draft),
{
    SavedAttachTarget::from_target(
        AttachTarget {
            label: "dashboard-started ndn-fwd".to_string(),
            endpoint: draft.management_socket.clone(),
            mode: AttachMode::LocalDesktop,
            profile_hint: Some(ForwarderKind::NdnRs),
        },
        false,
        None,
    )
}

/// A forwarder that the console has started and attached to can be stopped
/// from the console; one attached in any other way cannot.
pub proof fn only_started_forwarders_can_be_stopped(
    before: Session,
    after: Session,
    probe: ProbeResult,
    target: Option<SavedAttachTarget>,
    ownership: Option<EngineOwnership>,
)
    requires
        after.attaches(before, probe, target, ownership),
    ensures
        crate::operations::stop_blocker(after.state.attach_state) is None <==> ownership == Some(
            EngineOwnership::DashboardStarted,
        ),
{
}

/// Attaching shows the forwarder that answered, keeps the density, and selects
/// the target that was connected.
pub proof fn attaching_selects_the_target(
    before: Session,
    after: Session,
    probe: ProbeResult,
    target: SavedAttachTarget,
    ownership: Option<EngineOwnership>,
)
    requires
        after.attaches(before, probe, Some(target), ownership),
    ensures
        after.state.profile == probe.profile,
        after.state.density == before.state.density,
        after.state.attach_state.bound() is Some,
        after.preferences.selected() == Some(model::connected(target, PROBED_AT_UNIX_S)),
{
    let plain = DashboardPreferences {
        platform: after.preferences.platform,
        density: after.preferences.density,
        ..before.preferences
    };
    model::connected_target_is_selected(plain, after.preferences, target, PROBED_AT_UNIX_S);
}

/// A local forwarder that the console has started always answers, so the
/// console attaches to it.
pub proof fn started_forwarders_answer(
    answer: Result<ProbeResult, AttachError>,
    target: AttachTarget,
)
    requires
        desktop_answer(answer, target),
    ensures
        answer is Ok,
{
    let steps = client::native_steps(ProbeOutcome::Answered, ProbeOutcome::Answered);
    assert(client::answered(steps, client::ProbeEndpoint::NfdStatusGeneral));
}

// ---------------------------------------------------------------------------
// Laws
// ---------------------------------------------------------------------------

/// Attaching shows what was probed: the profile and its endpoint, the trust and
/// the observability that it has, and who runs the engine. An earlier error is
/// gone, and how dense the dashboard is does not change.
pub proof fn attached_sessions_show_the_probe(
    before: Session,
    after: Session,
    probe: ProbeResult,
    target: Option<SavedAttachTarget>,
    ownership: Option<EngineOwnership>,
)
    requires
        after.attaches(before, probe, target, ownership),
    ensures
        after.state.profile == probe.profile,
        after.state.run_state is Attached,
        after.state.density == before.state.density,
        after.preferences.density == before.state.density,
        after.state.platform == before.platform,
        after.state.attach_state matches AttachState::Attached { binding } && binding.profile
            == probe.profile && (ownership matches Some(owner) ==> binding.ownership == owner),
        ({
            let context = probe.profile.capabilities.trust_context;
            let there = context is Enabled || context is Degraded || context is ReadOnly;
            &&& after.state.trust is Valid <==> there && probe.has_identity
            &&& after.state.trust is NoIdentity <==> there && !probe.has_identity
            &&& after.state.trust is Unsupported <==> !there
        }),
        after.state.observe is Enabled <==> probe.profile.capabilities.observability is Enabled,
        after.state.observe is Degraded <==> probe.profile.capabilities.observability is Degraded,
        after.state.observe is Disabled <==> probe.profile.capabilities.observability is Disabled,
        after.last_attach_error is None,
        after.last_probe is Some && after.last_probe->0.steps@ == probe.transcript.steps@,
        target is None ==> after.preferences.selected_target_id
            == before.preferences.selected_target_id && after.preferences.saved_targets@
            == before.preferences.saved_targets@,
        target matches Some(target) ==> after.preferences.selected_target_id == Some(target.id),
{
}

/// A failed attach is told and changes nothing else.
pub proof fn failed_attaches_change_nothing(before: Session, after: Session, message: Seq<char>)
    requires
        after.fails(before, message),
    ensures
        after.last_attach_error is Some && after.last_attach_error->0@ == message,
        after.state == before.state,
        after.preferences == before.preferences,
        after.last_probe == before.last_probe,
        after.notice == before.notice,
{
}

/// The target with a label is the first one that has it.
pub proof fn labels_find_the_first_target(
    targets: Seq<SavedAttachTarget>,
    label: Seq<char>,
    k: int,
)
    requires
        0 <= k <= targets.len(),
        forall|j: int| 0 <= j < k ==> (#[trigger] targets[j]).label@ != label,
        k < targets.len() ==> targets[k].label@ == label,
    ensures
        k < targets.len() ==> labelled(targets, label) == Some(targets[k]),
        k == targets.len() ==> labelled(targets, label) is None,
    decreases k,
{
    if k > 0 {
        let rest = targets.drop_first();
        assert(targets[0].label@ != label);
        assert forall|j: int| 0 <= j < k - 1 implies (#[trigger] rest[j]).label@ != label by {
            assert(rest[j] == targets[j + 1]);
        }
        if k < targets.len() {
            assert(rest[k - 1] == targets[k]);
        }
        labels_find_the_first_target(rest, label, k - 1);
    }
}

/// A launch counts as started where it succeeded, as running already where the
/// error says so, and else as stopped.
pub proof fn launches_are_told_apart(launched: Result<LaunchedForwarder, String>)
    ensures
        launch_state(launched) is Started <==> launched is Ok,
        launched matches Err(err) ==> (launch_state(launched) is AlreadyRunning <==> text::occurs(
            err@,
            "already running from this dashboard"@,
        )),
        launched matches Err(err) ==> (launch_state(launched) is Stopped <==> !text::occurs(
            err@,
            "already running from this dashboard"@,
        )),
{
}

/// A forwarder that the dashboard started is reached over the socket of its
/// config, as a native one; it is neither pinned nor connected yet.
pub proof fn started_targets_use_the_configured_socket(
    target: SavedAttachTarget,
    draft: RouterConfigDraft,
)
    requires
        started_from(target, draft),
    ensures
        target.endpoint@ == draft.management_socket@,
        target.label@ == "dashboard-started ndn-fwd"@,
        target.mode is LocalDesktop,
        target.profile_hint == Some(ForwarderKind::NdnRs),
        !target.pinned && target.last_connected_unix_s is None,
{
}

/// An engine carries the label of its target where someone is named as its
/// owner; else it carries none, and the way it is reached implies the owner.
pub proof fn owned_engines_carry_their_label(
    before: Session,
    after: Session,
    probe: ProbeResult,
    target: Option<SavedAttachTarget>,
    ownership: Option<EngineOwnership>,
)
    requires
        after.attaches(before, probe, target, ownership),
    ensures
        after.state.attach_state matches AttachState::Attached { binding } && {
            &&& ownership is None ==> binding.target_label is None
            &&& ownership is Some && target is None ==> binding.target_label is None
            &&& ownership is Some ==> (target matches Some(target) ==> binding.target_label
                == Some(target.label))
            &&& binding.attached_at_unix_s is None
        },
{
}

} // verus!
