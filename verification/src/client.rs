//! Attach adapters and capability probing.
//!
//! A probe is the transcript of management names that were asked and how each
//! was answered; what a forwarder can do is read off that transcript.

use vstd::prelude::*;

use crate::model;
use crate::model::{
    observe_from_capabilities, trust_from_capabilities, AttachMode, AttachTarget,
    CapabilityEvidence, CapabilitySet, DashboardState, Density, FeatureState, ForwarderKind,
    ForwarderProfile, PlatformKind,
};
use crate::operations::{AttachState, DashboardRunState, EngineBinding};

verus! {

#[derive(Clone, Copy, Debug, PartialEq, Eq, Structural)]
pub enum AttachError {
    BrowserTransportUnavailable,
    DesktopSocketUnavailable,
    Unauthorized,
    Timeout,
    InvalidResponse,
    UnsupportedProfile,
}

impl AttachError {
    /// The text of [`AttachError::message`].
    pub open spec fn message_text(self) -> Seq<char> {
        match self {
            AttachError::BrowserTransportUnavailable => {
                "Browser attach needs a browser-safe NDN transport or relay."@
            },
            AttachError::DesktopSocketUnavailable => {
                "Desktop attach needs a reachable local management socket."@
            },
            AttachError::Unauthorized => "The forwarder rejected the management probe."@,
            AttachError::Timeout => "The management probe timed out before the target responded."@,
            AttachError::InvalidResponse => {
                "The target replied with a malformed management response."@
            },
            AttachError::UnsupportedProfile => {
                "The target did not expose a known management profile."@
            },
        }
    }

    pub fn message(&self) -> (r: &'static str)
        ensures
            r@ == self.message_text(),
    {
        match self {
            AttachError::BrowserTransportUnavailable => {
                "Browser attach needs a browser-safe NDN transport or relay."
            },
            AttachError::DesktopSocketUnavailable => {
                "Desktop attach needs a reachable local management socket."
            },
            AttachError::Unauthorized => "The forwarder rejected the management probe.",
            AttachError::Timeout => "The management probe timed out before the target responded.",
            AttachError::InvalidResponse => {
                "The target replied with a malformed management response."
            },
            AttachError::UnsupportedProfile => {
                "The target did not expose a known management profile."
            },
        }
    }
}

#[derive(Clone, Copy, Debug, PartialEq, Eq, Structural)]
pub enum ProbeEndpoint {
    NfdStatusGeneral,
    NfdFacesList,
    NdnRsCapabilities,
    NdnRsObservabilityRecent,
    NdnRsTrustContext,
    NdnRsTools,
}

impl ProbeEndpoint {
    /// The text of [`ProbeEndpoint::name`].
    pub open spec fn name_text(self) -> Seq<char> {
        match self {
            Self::NfdStatusGeneral => "/localhost/nfd/status/general"@,
            Self::NfdFacesList => "/localhost/nfd/faces/list"@,
            Self::NdnRsCapabilities => "/localhost/nfd/ndnrs/capabilities"@,
            Self::NdnRsObservabilityRecent => "/localhost/nfd/observability/recent"@,
            Self::NdnRsTrustContext => "/localhost/nfd/security/context"@,
            Self::NdnRsTools => "/localhost/nfd/tools/list"@,
        }
    }

    pub fn name(self) -> (r: &'static str)
        ensures
            r@ == self.name_text(),
    {
        match self {
            Self::NfdStatusGeneral => "/localhost/nfd/status/general",
            Self::NfdFacesList => "/localhost/nfd/faces/list",
            Self::NdnRsCapabilities => "/localhost/nfd/ndnrs/capabilities",
            Self::NdnRsObservabilityRecent => "/localhost/nfd/observability/recent",
            Self::NdnRsTrustContext => "/localhost/nfd/security/context",
            Self::NdnRsTools => "/localhost/nfd/tools/list",
        }
    }
}

#[derive(Clone, Copy, Debug, PartialEq, Eq, Structural)]
pub enum ProbeOutcome {
    Answered,
    NotFound,
    Unauthorized,
    Timeout,
    InvalidResponse,
    TransportUnavailable,
}

impl ProbeOutcome {
    pub fn is_ok(self) -> (r: bool)
        ensures
            r == (self is Answered),
    {
        self == ProbeOutcome::Answered
    }
}

#[derive(Clone, Copy, Debug, PartialEq, Eq, Structural)]
pub struct ProbeStep {
    pub endpoint: ProbeEndpoint,
    pub outcome: ProbeOutcome,
}

/// The endpoint was asked, with this outcome.
pub open spec fn step(endpoint: ProbeEndpoint, outcome: ProbeOutcome) -> ProbeStep {
    ProbeStep { endpoint, outcome }
}

impl ProbeStep {
    pub fn ok(endpoint: ProbeEndpoint) -> (r: Self)
        ensures
            r == step(endpoint, ProbeOutcome::Answered),
    {
        ProbeStep { endpoint, outcome: ProbeOutcome::Answered }
    }

    pub fn missing(endpoint: ProbeEndpoint) -> (r: Self)
        ensures
            r == step(endpoint, ProbeOutcome::NotFound),
    {
        ProbeStep { endpoint, outcome: ProbeOutcome::NotFound }
    }
}

#[derive(Debug, PartialEq, Eq)]
pub struct ProbeTranscript {
    pub steps: Vec<ProbeStep>,
}

impl Clone for ProbeTranscript {
    fn clone(&self) -> (r: Self)
        ensures
            r.steps@ == self.steps@,
    {
        let mut steps: Vec<ProbeStep> = Vec::new();
        let mut i: usize = 0;
        while i < self.steps.len()
            invariant
                i <= self.steps@.len(),
                steps@ == self.steps@.take(i as int),
            decreases self.steps@.len() - i,
        {
            steps.push(self.steps[i]);
            i = i + 1;
            assert(steps@ =~= self.steps@.take(i as int));
        }
        assert(self.steps@.take(i as int) =~= self.steps@);
        ProbeTranscript { steps }
    }
}

/// The outcome of the first step that asked an endpoint.
pub open spec fn outcome_of(steps: Seq<ProbeStep>, endpoint: ProbeEndpoint) -> Option<ProbeOutcome>
    decreases steps.len(),
{
    if steps.len() == 0 {
        None
    } else if steps[0].endpoint == endpoint {
        Some(steps[0].outcome)
    } else {
        outcome_of(steps.drop_first(), endpoint)
    }
}

/// The endpoint answered.
pub open spec fn answered(steps: Seq<ProbeStep>, endpoint: ProbeEndpoint) -> bool {
    outcome_of(steps, endpoint) == Some(ProbeOutcome::Answered)
}

/// One of the two basic management names answered.
pub open spec fn basic_answered(steps: Seq<ProbeStep>) -> bool {
    answered(steps, ProbeEndpoint::NfdStatusGeneral) || answered(steps, ProbeEndpoint::NfdFacesList)
}

/// The error that an outcome stands for; an absent name is none.
pub open spec fn error_of(outcome: ProbeOutcome) -> Option<AttachError> {
    match outcome {
        ProbeOutcome::Answered => None,
        ProbeOutcome::NotFound => None,
        ProbeOutcome::Unauthorized => Some(AttachError::Unauthorized),
        ProbeOutcome::Timeout => Some(AttachError::Timeout),
        ProbeOutcome::InvalidResponse => Some(AttachError::InvalidResponse),
        ProbeOutcome::TransportUnavailable => Some(AttachError::UnsupportedProfile),
    }
}

/// The error of the first step that has one.
pub open spec fn blocking_error(steps: Seq<ProbeStep>) -> Option<AttachError>
    decreases steps.len(),
{
    if steps.len() == 0 {
        None
    } else if error_of(steps[0].outcome) is Some {
        error_of(steps[0].outcome)
    } else {
        blocking_error(steps.drop_first())
    }
}

impl ProbeTranscript {
    pub fn new(steps: Vec<ProbeStep>) -> (r: Self)
        ensures
            r.steps == steps,
    {
        ProbeTranscript { steps }
    }

    pub fn outcome(&self, endpoint: ProbeEndpoint) -> (r: Option<ProbeOutcome>)
        ensures
            r == outcome_of(self.steps@, endpoint),
    {
        let mut i: usize = 0;
        assert(self.steps@.skip(0) =~= self.steps@);
        while i < self.steps.len()
            invariant
                i <= self.steps@.len(),
                outcome_of(self.steps@, endpoint) == outcome_of(
                    self.steps@.skip(i as int),
                    endpoint,
                ),
            decreases self.steps@.len() - i,
        {
            if self.steps[i].endpoint == endpoint {
                return Some(self.steps[i].outcome);
            }
            assert(self.steps@.skip(i as int).drop_first() =~= self.steps@.skip(i + 1));
            i = i + 1;
        }
        None
    }

    pub fn saw_ok(&self, endpoint: ProbeEndpoint) -> (r: bool)
        ensures
            r == answered(self.steps@, endpoint),
    {
        match self.outcome(endpoint) {
            Some(outcome) => outcome.is_ok(),
            None => false,
        }
    }

    pub fn nfd_basic_ok(&self) -> (r: bool)
        ensures
            r == basic_answered(self.steps@),
    {
        self.saw_ok(ProbeEndpoint::NfdStatusGeneral) || self.saw_ok(ProbeEndpoint::NfdFacesList)
    }

    pub fn first_blocking_error(&self) -> (r: Option<AttachError>)
        ensures
            r == blocking_error(self.steps@),
    {
        let mut i: usize = 0;
        assert(self.steps@.skip(0) =~= self.steps@);
        while i < self.steps.len()
            invariant
                i <= self.steps@.len(),
                blocking_error(self.steps@) == blocking_error(self.steps@.skip(i as int)),
            decreases self.steps@.len() - i,
        {
            let error = match self.steps[i].outcome {
                ProbeOutcome::Answered | ProbeOutcome::NotFound => None,
                ProbeOutcome::Unauthorized => Some(AttachError::Unauthorized),
                ProbeOutcome::Timeout => Some(AttachError::Timeout),
                ProbeOutcome::InvalidResponse => Some(AttachError::InvalidResponse),
                ProbeOutcome::TransportUnavailable => Some(AttachError::UnsupportedProfile),
            };
            if error.is_some() {
                return error;
            }
            assert(self.steps@.skip(i as int).drop_first() =~= self.steps@.skip(i + 1));
            i = i + 1;
        }
        None
    }
}

#[derive(Debug)]
pub struct ProbeResult {
    pub profile: ForwarderProfile,
    pub has_identity: bool,
    pub transcript: ProbeTranscript,
}

impl Clone for ProbeResult {
    fn clone(&self) -> (r: Self)
        ensures
            r.profile == self.profile,
            r.has_identity == self.has_identity,
            r.transcript.steps@ == self.transcript.steps@,
    {
        ProbeResult {
            profile: self.profile.clone(),
            has_identity: self.has_identity,
            transcript: self.transcript.clone(),
        }
    }
}

// ---------------------------------------------------------------------------
// Reading a transcript
// ---------------------------------------------------------------------------

/// The state of a native feature, read off the outcome of its probe.
pub open spec fn feature_state(
    ndnrs_native: bool,
    outcome: Option<ProbeOutcome>,
    degrade_when_ok: bool,
) -> FeatureState {
    if !ndnrs_native {
        FeatureState::Unsupported
    } else {
        match outcome {
            Some(ProbeOutcome::Answered) => if degrade_when_ok {
                FeatureState::Degraded
            } else {
                FeatureState::Enabled
            },
            Some(ProbeOutcome::NotFound) => FeatureState::Disabled,
            Some(ProbeOutcome::Unauthorized) => FeatureState::Degraded,
            Some(ProbeOutcome::Timeout) => FeatureState::Degraded,
            Some(ProbeOutcome::InvalidResponse) => FeatureState::Degraded,
            Some(ProbeOutcome::TransportUnavailable) => FeatureState::Unsupported,
            None => FeatureState::Unsupported,
        }
    }
}

/// The kind of forwarder: as hinted, else as the native probe tells.
pub open spec fn probed_kind(target: AttachTarget, steps: Seq<ProbeStep>) -> ForwarderKind {
    match target.profile_hint {
        Some(kind) => kind,
        None => if answered(steps, ProbeEndpoint::NdnRsCapabilities) {
            ForwarderKind::NdnRs
        } else {
            ForwarderKind::Unknown
        },
    }
}

/// The forwarder has native extensions: it said so, or it is of a kind that has.
pub open spec fn probed_native(target: AttachTarget, steps: Seq<ProbeStep>) -> bool {
    ||| answered(steps, ProbeEndpoint::NdnRsCapabilities)
    ||| probed_kind(target, steps) is NdnRs
    ||| probed_kind(target, steps) is BrowserEngine
}

/// The evidence that a transcript with basic management gives. In the browser
/// sandbox observability and trust count as degraded even where they answer.
pub open spec fn evidence_of(target: AttachTarget, steps: Seq<ProbeStep>) -> CapabilityEvidence {
    let native = probed_native(target, steps);
    let sandbox = target.mode is BrowserEngine;
    CapabilityEvidence {
        nfd_basic: true,
        ndnrs_native: native,
        observability: feature_state(
            native,
            outcome_of(steps, ProbeEndpoint::NdnRsObservabilityRecent),
            sandbox,
        ),
        trust_context: feature_state(
            native,
            outcome_of(steps, ProbeEndpoint::NdnRsTrustContext),
            sandbox,
        ),
        tools: feature_state(native, outcome_of(steps, ProbeEndpoint::NdnRsTools), false),
    }
}

/// The version shown for a probed forwarder.
pub open spec fn probed_version(kind: ForwarderKind) -> Seq<char> {
    match kind {
        ForwarderKind::NdnRs => "probed ndn-rs"@,
        ForwarderKind::Nfd => "probed NFD"@,
        ForwarderKind::YaNfd => "probed YaNFD"@,
        ForwarderKind::BrowserEngine => "sandbox"@,
        ForwarderKind::Unknown => "unknown"@,
    }
}

/// The error of a transcript without basic management: that of the first
/// failing step, else the one that fits how the target is reached.
pub open spec fn probe_error(mode: AttachMode, steps: Seq<ProbeStep>) -> AttachError {
    match blocking_error(steps) {
        Some(error) => error,
        None => if mode is LocalDesktop {
            AttachError::DesktopSocketUnavailable
        } else {
            AttachError::BrowserTransportUnavailable
        },
    }
}

/// What a transcript of a target amounts to.
pub open spec fn reads_as(
    r: Result<ProbeResult, AttachError>,
    target: AttachTarget,
    steps: Seq<ProbeStep>,
    has_identity: bool,
) -> bool {
    match r {
        Ok(probe) => {
            let kind = probed_kind(target, steps);
            &&& basic_answered(steps)
            &&& probe.profile.is(
                kind,
                probed_version(kind),
                target.endpoint@,
                target.mode,
                CapabilitySet::normalized(evidence_of(target, steps)),
            )
            &&& probe.has_identity == has_identity
            &&& probe.transcript.steps@ == steps
        },
        Err(error) => !basic_answered(steps) && error == probe_error(target.mode, steps),
    }
}

pub fn normalize_probe(
    platform: PlatformKind,
    target: &AttachTarget,
    transcript: ProbeTranscript,
    has_identity: bool,
) -> (r: Result<ProbeResult, AttachError>)
    ensures
        reads_as(r, *target, transcript.steps@, has_identity),
{
    if !transcript.nfd_basic_ok() {
        return Err(
            match transcript.first_blocking_error() {
                Some(error) => error,
                None => match target.mode {
                    AttachMode::BrowserEngine | AttachMode::RemoteWeb | AttachMode::Relay => {
                        AttachError::BrowserTransportUnavailable
                    },
                    AttachMode::LocalDesktop => AttachError::DesktopSocketUnavailable,
                },
            },
        );
    }
    let kind = match target.profile_hint {
        Some(kind) => kind,
        None => {
            if transcript.saw_ok(ProbeEndpoint::NdnRsCapabilities) {
                ForwarderKind::NdnRs
            } else {
                ForwarderKind::Unknown
            }
        },
    };
    let ndnrs_native = transcript.saw_ok(ProbeEndpoint::NdnRsCapabilities) || matches!(
        kind,
        ForwarderKind::NdnRs | ForwarderKind::BrowserEngine
    );
    let sandbox = matches!(target.mode, AttachMode::BrowserEngine);
    let observability = native_feature_state(
        ndnrs_native,
        transcript.outcome(ProbeEndpoint::NdnRsObservabilityRecent),
        sandbox,
    );
    let trust_context = native_feature_state(
        ndnrs_native,
        transcript.outcome(ProbeEndpoint::NdnRsTrustContext),
        sandbox,
    );
    let tools = native_feature_state(
        ndnrs_native,
        transcript.outcome(ProbeEndpoint::NdnRsTools),
        false,
    );
    let capabilities = CapabilitySet::from_probe_evidence(
        &CapabilityEvidence {
            nfd_basic: true,
            ndnrs_native,
            observability,
            trust_context,
            tools,
        },
    );
    let version = match kind {
        ForwarderKind::NdnRs => "probed ndn-rs",
        ForwarderKind::Nfd => "probed NFD",
        ForwarderKind::YaNfd => "probed YaNFD",
        ForwarderKind::BrowserEngine => "sandbox",
        ForwarderKind::Unknown => "unknown",
    };
    let profile = ForwarderProfile {
        kind,
        version: version.to_string(),
        endpoint: target.endpoint.clone(),
        attach_mode: target.mode,
        capabilities,
    };
    Ok(ProbeResult { profile, has_identity, transcript })
}

fn native_feature_state(
    ndnrs_native: bool,
    outcome: Option<ProbeOutcome>,
    degrade_when_ok: bool,
) -> (r: FeatureState)
    ensures
        r == feature_state(ndnrs_native, outcome, degrade_when_ok),
{
    if !ndnrs_native {
        return FeatureState::Unsupported;
    }
    match outcome {
        Some(ProbeOutcome::Answered) => {
            if degrade_when_ok {
                FeatureState::Degraded
            } else {
                FeatureState::Enabled
            }
        },
        Some(ProbeOutcome::NotFound) => FeatureState::Disabled,
        Some(
            ProbeOutcome::Unauthorized | ProbeOutcome::Timeout | ProbeOutcome::InvalidResponse,
        ) => FeatureState::Degraded,
        Some(ProbeOutcome::TransportUnavailable) | None => FeatureState::Unsupported,
    }
}

/// A probe fails exactly where neither basic management name answered.
pub proof fn probe_fails_without_basic_management(
    r: Result<ProbeResult, AttachError>,
    target: AttachTarget,
    steps: Seq<ProbeStep>,
    has_identity: bool,
)
    requires
        reads_as(r, target, steps, has_identity),
    ensures
        r is Err <==> !answered(steps, ProbeEndpoint::NfdStatusGeneral) && !answered(
            steps,
            ProbeEndpoint::NfdFacesList,
        ),
{
}

/// A forwarder that is not hinted to be native and did not say so is read-only,
/// whatever the other probes answered.
pub proof fn compatible_forwarder_stays_read_only(
    r: Result<ProbeResult, AttachError>,
    target: AttachTarget,
    steps: Seq<ProbeStep>,
    has_identity: bool,
)
    requires
        reads_as(r, target, steps, has_identity),
        !answered(steps, ProbeEndpoint::NdnRsCapabilities),
        target.profile_hint != Some(ForwarderKind::NdnRs),
        target.profile_hint != Some(ForwarderKind::BrowserEngine),
    ensures
        r matches Ok(probe) ==> probe.profile.capabilities == CapabilitySet::read_only(),
{
}

/// In the browser sandbox observability and trust are never fully enabled.
pub proof fn sandbox_never_fully_enables_native_features(
    r: Result<ProbeResult, AttachError>,
    target: AttachTarget,
    steps: Seq<ProbeStep>,
    has_identity: bool,
)
    requires
        reads_as(r, target, steps, has_identity),
        target.mode is BrowserEngine,
    ensures
        r matches Ok(probe) ==> !(probe.profile.capabilities.observability is Enabled) && !(
        probe.profile.capabilities.trust_context is Enabled),
{
}

// ---------------------------------------------------------------------------
// Clients
// ---------------------------------------------------------------------------

/// The steps of a native forwarder whose optional features answer as given.
pub open spec fn native_steps(observability: ProbeOutcome, trust: ProbeOutcome) -> Seq<ProbeStep> {
    seq![
        step(ProbeEndpoint::NfdStatusGeneral, ProbeOutcome::Answered),
        step(ProbeEndpoint::NfdFacesList, ProbeOutcome::Answered),
        step(ProbeEndpoint::NdnRsCapabilities, ProbeOutcome::Answered),
        step(ProbeEndpoint::NdnRsObservabilityRecent, observability),
        step(ProbeEndpoint::NdnRsTrustContext, trust),
        step(ProbeEndpoint::NdnRsTools, ProbeOutcome::Answered),
    ]
}

/// The steps of a forwarder that offers basic management only.
pub open spec fn compatible_steps() -> Seq<ProbeStep> {
    seq![
        step(ProbeEndpoint::NfdStatusGeneral, ProbeOutcome::Answered),
        step(ProbeEndpoint::NfdFacesList, ProbeOutcome::Answered),
        step(ProbeEndpoint::NdnRsCapabilities, ProbeOutcome::NotFound),
        step(ProbeEndpoint::NdnRsObservabilityRecent, ProbeOutcome::NotFound),
        step(ProbeEndpoint::NdnRsTrustContext, ProbeOutcome::NotFound),
        step(ProbeEndpoint::NdnRsTools, ProbeOutcome::NotFound),
    ]
}

/// The steps of the engine inside the browser, where observability times out.
pub open spec fn sandbox_steps() -> Seq<ProbeStep> {
    native_steps(ProbeOutcome::Timeout, ProbeOutcome::Answered)
}

/// How a feature in a given state answers its probe.
pub open spec fn outcome_for(state: FeatureState) -> ProbeOutcome {
    match state {
        FeatureState::Enabled => ProbeOutcome::Answered,
        FeatureState::ReadOnly => ProbeOutcome::Answered,
        FeatureState::Disabled => ProbeOutcome::NotFound,
        FeatureState::Unsupported => ProbeOutcome::NotFound,
        FeatureState::Degraded => ProbeOutcome::Timeout,
    }
}

fn feature_probe_step(endpoint: ProbeEndpoint, state: FeatureState) -> (r: ProbeStep)
    ensures
        r == step(endpoint, outcome_for(state)),
{
    let outcome = match state {
        FeatureState::Enabled | FeatureState::ReadOnly => ProbeOutcome::Answered,
        FeatureState::Disabled | FeatureState::Unsupported => ProbeOutcome::NotFound,
        FeatureState::Degraded => ProbeOutcome::Timeout,
    };
    ProbeStep { endpoint, outcome }
}

fn ndnrs_native_transcript(observability: FeatureState, trust_context: FeatureState) -> (r:
    ProbeTranscript)
    ensures
        r.steps@ == native_steps(outcome_for(observability), outcome_for(trust_context)),
{
    let r = ProbeTranscript::new(
        vec![
            ProbeStep::ok(ProbeEndpoint::NfdStatusGeneral),
            ProbeStep::ok(ProbeEndpoint::NfdFacesList),
            ProbeStep::ok(ProbeEndpoint::NdnRsCapabilities),
            feature_probe_step(ProbeEndpoint::NdnRsObservabilityRecent, observability),
            feature_probe_step(ProbeEndpoint::NdnRsTrustContext, trust_context),
            ProbeStep::ok(ProbeEndpoint::NdnRsTools),
        ],
    );
    assert(r.steps@ =~= native_steps(outcome_for(observability), outcome_for(trust_context)));
    r
}

fn compat_read_only_transcript() -> (r: ProbeTranscript)
    ensures
        r.steps@ == compatible_steps(),
{
    let r = ProbeTranscript::new(
        vec![
            ProbeStep::ok(ProbeEndpoint::NfdStatusGeneral),
            ProbeStep::ok(ProbeEndpoint::NfdFacesList),
            ProbeStep::missing(ProbeEndpoint::NdnRsCapabilities),
            ProbeStep::missing(ProbeEndpoint::NdnRsObservabilityRecent),
            ProbeStep::missing(ProbeEndpoint::NdnRsTrustContext),
            ProbeStep::missing(ProbeEndpoint::NdnRsTools),
        ],
    );
    assert(r.steps@ =~= compatible_steps());
    r
}

fn sandbox_transcript() -> (r: ProbeTranscript)
    ensures
        r.steps@ == sandbox_steps(),
{
    ndnrs_native_transcript(FeatureState::Degraded, FeatureState::Enabled)
}

pub trait DashboardClient {
    fn attach_targets(&self) -> Vec<AttachTarget>;

    fn probe(&self, target: &AttachTarget) -> Result<ProbeResult, AttachError>;
}

#[derive(Clone, Copy, Debug)]
pub struct BrowserEngineClient;

#[derive(Debug)]
pub struct BrowserRemoteClient {
    pub url: String,
}

impl Clone for BrowserRemoteClient {
    fn clone(&self) -> (r: Self)
        ensures
            r == *self,
    {
        BrowserRemoteClient {
            url: self.url.clone(),
        }
    }
}

#[derive(Debug)]
pub struct DesktopLocalClient {
    pub socket: String,
}

impl Clone for DesktopLocalClient {
    fn clone(&self) -> (r: Self)
        ensures
            r == *self,
    {
        DesktopLocalClient {
            socket: self.socket.clone(),
        }
    }
}

#[derive(Debug)]
pub struct RelayClient {
    pub endpoint: String,
    pub profile_hint: ForwarderKind,
}

impl Clone for RelayClient {
    fn clone(&self) -> (r: Self)
        ensures
            r == *self,
    {
        RelayClient {
            endpoint: self.endpoint.clone(),
            profile_hint: self.profile_hint,
        }
    }
}

impl DashboardClient for BrowserEngineClient {
    fn attach_targets(&self) -> (r: Vec<AttachTarget>)
        ensures
            r@.len() == 1,
            r@[0].is(
                "browser in-page engine"@,
                "tab://engine"@,
                AttachMode::BrowserEngine,
                Some(ForwarderKind::BrowserEngine),
            ),
    {
        vec![
            AttachTarget {
                label: "browser in-page engine".to_string(),
                endpoint: "tab://engine".to_string(),
                mode: AttachMode::BrowserEngine,
                profile_hint: Some(ForwarderKind::BrowserEngine),
            },
        ]
    }

    fn probe(&self, target: &AttachTarget) -> (r: Result<ProbeResult, AttachError>)
        ensures
            reads_as(r, *target, sandbox_steps(), true),
    {
        normalize_probe(PlatformKind::Browser, target, sandbox_transcript(), true)
    }
}

impl DashboardClient for BrowserRemoteClient {
    fn attach_targets(&self) -> (r: Vec<AttachTarget>)
        ensures
            r@.len() == 1,
            r@[0].is(
                "remote ndn-rs"@,
                self.url@,
                AttachMode::RemoteWeb,
                Some(ForwarderKind::NdnRs),
            ),
    {
        vec![
            AttachTarget {
                label: "remote ndn-rs".to_string(),
                endpoint: self.url.clone(),
                mode: AttachMode::RemoteWeb,
                profile_hint: Some(ForwarderKind::NdnRs),
            },
        ]
    }

    fn probe(&self, target: &AttachTarget) -> (r: Result<ProbeResult, AttachError>)
        ensures
            reads_as(
                r,
                *target,
                native_steps(ProbeOutcome::Answered, ProbeOutcome::Answered),
                true,
            ),
    {
        normalize_probe(
            PlatformKind::Browser,
            target,
            ndnrs_native_transcript(FeatureState::Enabled, FeatureState::Enabled),
            true,
        )
    }
}

impl DashboardClient for DesktopLocalClient {
    fn attach_targets(&self) -> (r: Vec<AttachTarget>)
        ensures
            r@.len() == 1,
            r@[0].is(
                "local ndn-rs"@,
                self.socket@,
                AttachMode::LocalDesktop,
                Some(ForwarderKind::NdnRs),
            ),
    {
        vec![
            AttachTarget {
                label: "local ndn-rs".to_string(),
                endpoint: self.socket.clone(),
                mode: AttachMode::LocalDesktop,
                profile_hint: Some(ForwarderKind::NdnRs),
            },
        ]
    }

    fn probe(&self, target: &AttachTarget) -> (r: Result<ProbeResult, AttachError>)
        ensures
            reads_as(
                r,
                *target,
                native_steps(ProbeOutcome::Answered, ProbeOutcome::Answered),
                true,
            ),
    {
        normalize_probe(
            PlatformKind::Desktop,
            target,
            ndnrs_native_transcript(FeatureState::Enabled, FeatureState::Enabled),
            true,
        )
    }
}

/// The steps of a relay to a forwarder of a hinted kind.
pub open spec fn relay_steps(hint: ForwarderKind) -> Seq<ProbeStep> {
    match hint {
        ForwarderKind::NdnRs => native_steps(ProbeOutcome::Answered, ProbeOutcome::Answered),
        ForwarderKind::BrowserEngine => native_steps(
            ProbeOutcome::Answered,
            ProbeOutcome::Answered,
        ),
        ForwarderKind::Nfd => compatible_steps(),
        ForwarderKind::YaNfd => compatible_steps(),
        ForwarderKind::Unknown => seq![
            step(ProbeEndpoint::NfdStatusGeneral, ProbeOutcome::TransportUnavailable),
        ],
    }
}

impl DashboardClient for RelayClient {
    fn attach_targets(&self) -> (r: Vec<AttachTarget>)
        ensures
            r@.len() == 1,
            r@[0].is(
                self.profile_hint.label_text() + " relay"@,
                self.endpoint@,
                AttachMode::Relay,
                Some(self.profile_hint),
            ),
    {
        vec![
            AttachTarget {
                label: self.profile_hint.label().to_string().concat(" relay"),
                endpoint: self.endpoint.clone(),
                mode: AttachMode::Relay,
                profile_hint: Some(self.profile_hint),
            },
        ]
    }

    fn probe(&self, target: &AttachTarget) -> (r: Result<ProbeResult, AttachError>)
        ensures
            reads_as(r, *target, relay_steps(self.profile_hint), false),
    {
        let transcript = match self.profile_hint {
            ForwarderKind::NdnRs | ForwarderKind::BrowserEngine => ndnrs_native_transcript(
                FeatureState::Enabled,
                FeatureState::Enabled,
            ),
            ForwarderKind::Nfd | ForwarderKind::YaNfd => compat_read_only_transcript(),
            ForwarderKind::Unknown => {
                let lost = ProbeTranscript::new(
                    vec![
                        ProbeStep {
                            endpoint: ProbeEndpoint::NfdStatusGeneral,
                            outcome: ProbeOutcome::TransportUnavailable,
                        },
                    ],
                );
                assert(lost.steps@ =~= relay_steps(ForwarderKind::Unknown));
                lost
            },
        };
        normalize_probe(PlatformKind::Browser, target, transcript, false)
    }
}

#[derive(Clone, Copy, Debug)]
pub struct MockDashboardClient {
    pub platform: PlatformKind,
}

impl MockDashboardClient {
    pub fn new(platform: PlatformKind) -> (r: Self)
        ensures
            r.platform == platform,
    {
        MockDashboardClient { platform }
    }
}

/// The targets that stand in for what a platform can attach to.
pub open spec fn are_mock_targets(targets: Seq<AttachTarget>, platform: PlatformKind) -> bool {
    let native = if platform is Browser {
        1int
    } else {
        0
    };
    &&& targets.len() == native + 3
    &&& platform is Browser ==> targets[0].is(
        "browser in-page engine"@,
        "tab://engine"@,
        AttachMode::BrowserEngine,
        Some(ForwarderKind::BrowserEngine),
    )
    &&& targets[native].is(
        "ndn-rs native"@,
        match platform {
            PlatformKind::Browser => "wss://forwarder.example/ndn"@,
            PlatformKind::Desktop => "unix:///run/ndn-fwd/mgmt.sock"@,
        },
        match platform {
            PlatformKind::Browser => AttachMode::RemoteWeb,
            PlatformKind::Desktop => AttachMode::LocalDesktop,
        },
        Some(ForwarderKind::NdnRs),
    )
    &&& targets[native + 1].is(
        "NFD compatibility"@,
        "unix:///run/nfd/nfd.sock"@,
        AttachMode::LocalDesktop,
        Some(ForwarderKind::Nfd),
    )
    &&& targets[native + 2].is(
        "YaNFD compatibility"@,
        "relay://yanfd"@,
        AttachMode::Relay,
        Some(ForwarderKind::YaNfd),
    )
}

/// The steps that stand in for the probe of a hinted kind.
pub open spec fn mock_steps(hint: ForwarderKind) -> Seq<ProbeStep> {
    match hint {
        ForwarderKind::BrowserEngine => sandbox_steps(),
        ForwarderKind::NdnRs => native_steps(ProbeOutcome::Answered, ProbeOutcome::Answered),
        _ => compatible_steps(),
    }
}

/// What probing a target stands in for: a target without a known kind is
/// refused, any other answers with the steps of its kind.
pub open spec fn mock_answer(
    result: Result<ProbeResult, AttachError>,
    target: AttachTarget,
) -> bool {
    match target.profile_hint {
        Some(ForwarderKind::Unknown) => result == Err::<ProbeResult, AttachError>(
            AttachError::UnsupportedProfile,
        ),
        None => result == Err::<ProbeResult, AttachError>(AttachError::UnsupportedProfile),
        Some(hint) => reads_as(
            result,
            target,
            mock_steps(hint),
            hint is NdnRs || hint is BrowserEngine,
        ),
    }
}

impl DashboardClient for MockDashboardClient {
    fn attach_targets(&self) -> (r: Vec<AttachTarget>)
        ensures
            are_mock_targets(r@, self.platform),
    {
        let mut targets = vec![
            AttachTarget {
                label: "ndn-rs native".to_string(),
                endpoint: match self.platform {
                    PlatformKind::Browser => "wss://forwarder.example/ndn".to_string(),
                    PlatformKind::Desktop => "unix:///run/ndn-fwd/mgmt.sock".to_string(),
                },
                mode: match self.platform {
                    PlatformKind::Browser => AttachMode::RemoteWeb,
                    PlatformKind::Desktop => AttachMode::LocalDesktop,
                },
                profile_hint: Some(ForwarderKind::NdnRs),
            },
            AttachTarget {
                label: "NFD compatibility".to_string(),
                endpoint: "unix:///run/nfd/nfd.sock".to_string(),
                mode: AttachMode::LocalDesktop,
                profile_hint: Some(ForwarderKind::Nfd),
            },
            AttachTarget {
                label: "YaNFD compatibility".to_string(),
                endpoint: "relay://yanfd".to_string(),
                mode: AttachMode::Relay,
                profile_hint: Some(ForwarderKind::YaNfd),
            },
        ];
        if self.platform == PlatformKind::Browser {
            targets.insert(
                0,
                AttachTarget {
                    label: "browser in-page engine".to_string(),
                    endpoint: "tab://engine".to_string(),
                    mode: AttachMode::BrowserEngine,
                    profile_hint: Some(ForwarderKind::BrowserEngine),
                },
            );
        }
        targets
    }

    fn probe(&self, target: &AttachTarget) -> (r: Result<ProbeResult, AttachError>)
        ensures
            mock_answer(r, *target),
    {
        let transcript = match target.profile_hint {
            Some(ForwarderKind::BrowserEngine) => sandbox_transcript(),
            Some(ForwarderKind::NdnRs) => ndnrs_native_transcript(
                FeatureState::Enabled,
                FeatureState::Enabled,
            ),
            Some(ForwarderKind::Nfd | ForwarderKind::YaNfd) => compat_read_only_transcript(),
            Some(ForwarderKind::Unknown) | None => {
                return Err(AttachError::UnsupportedProfile);
            },
        };
        let has_identity = matches!(
            target.profile_hint,
            Some(ForwarderKind::NdnRs | ForwarderKind::BrowserEngine)
        );
        normalize_probe(self.platform, target, transcript, has_identity)
    }
}

pub fn state_from_probe(platform: PlatformKind, probe: ProbeResult) -> (r: DashboardState)
    ensures
        r.platform == platform,
        r.density is Compact,
        r.run_state is Attached,
        r.attach_state matches AttachState::Attached { binding } && binding.binds(
            probe.profile,
            platform,
        ),
        r.profile == probe.profile,
        r.trust == model::trust_posture(probe.profile.capabilities, probe.has_identity),
        r.observe == model::observe_posture(probe.profile.capabilities),
{
    let trust = trust_from_capabilities(&probe.profile.capabilities, probe.has_identity);
    let observe = observe_from_capabilities(&probe.profile.capabilities);
    let binding = EngineBinding::from_profile(probe.profile.clone(), platform);
    DashboardState {
        platform,
        density: Density::Compact,
        run_state: DashboardRunState::Attached,
        attach_state: AttachState::Attached { binding },
        profile: probe.profile,
        trust,
        observe,
    }
}

// ---------------------------------------------------------------------------
// Laws
// ---------------------------------------------------------------------------

/// The step at `k` is the first that asked an endpoint.
pub open spec fn first_asked(steps: Seq<ProbeStep>, endpoint: ProbeEndpoint, k: int) -> bool {
    &&& 0 <= k < steps.len()
    &&& steps[k].endpoint == endpoint
    &&& forall|j: int| 0 <= j < k ==> (#[trigger] steps[j]).endpoint != endpoint
}

/// No step asked an endpoint.
pub open spec fn never_asked(steps: Seq<ProbeStep>, endpoint: ProbeEndpoint) -> bool {
    forall|j: int| 0 <= j < steps.len() ==> (#[trigger] steps[j]).endpoint != endpoint
}

/// Of several answers of one endpoint the first counts.
pub proof fn first_answer_counts(steps: Seq<ProbeStep>, endpoint: ProbeEndpoint)
    ensures
        forall|k: int| #[trigger]
            first_asked(steps, endpoint, k) ==> outcome_of(steps, endpoint) == Some(
                steps[k].outcome,
            ),
        never_asked(steps, endpoint) <==> outcome_of(steps, endpoint) is None,
        outcome_of(steps, endpoint) is Some ==> exists|k: int| #[trigger]
            first_asked(steps, endpoint, k),
    decreases steps.len(),
{
    if steps.len() > 0 {
        let rest = steps.drop_first();
        first_answer_counts(rest, endpoint);
        if steps[0].endpoint == endpoint {
            assert(first_asked(steps, endpoint, 0));
            assert forall|k: int| #[trigger] first_asked(steps, endpoint, k) implies k == 0 by {
                if k > 0 {
                    assert(steps[0].endpoint != endpoint);
                }
            }
        } else {
            assert forall|k: int| #[trigger] first_asked(steps, endpoint, k) implies outcome_of(
                steps,
                endpoint,
            ) == Some(steps[k].outcome) by {
                assert(rest[k - 1] == steps[k]);
                assert forall|j: int| 0 <= j < k - 1 implies (#[trigger] rest[j]).endpoint
                    != endpoint by {
                    assert(rest[j] == steps[j + 1]);
                }
                assert(first_asked(rest, endpoint, k - 1));
            }
            if outcome_of(rest, endpoint) is Some {
                let k = choose|k: int| #[trigger] first_asked(rest, endpoint, k);
                assert(steps[k + 1] == rest[k]);
                assert forall|j: int| 0 <= j < k + 1 implies (#[trigger] steps[j]).endpoint
                    != endpoint by {
                    if j > 0 {
                        assert(rest[j - 1] == steps[j]);
                    }
                }
                assert(first_asked(steps, endpoint, k + 1));
            }
            assert forall|j: int| 0 <= j < rest.len() implies #[trigger] rest[j] == steps[j + 1] by {}
            assert forall|j: int| 0 < j < steps.len() implies #[trigger] steps[j] == rest[j - 1] by {}
        }
    }
}

/// A native feature is enabled only where the probe of that very endpoint was
/// answered: observability by the observability probe, trust by the trust
/// context, and the tools by the tool list.
pub proof fn enabled_features_answered_their_own_probe(
    r: Result<ProbeResult, AttachError>,
    target: AttachTarget,
    steps: Seq<ProbeStep>,
    has_identity: bool,
)
    requires
        reads_as(r, target, steps, has_identity),
    ensures
        r matches Ok(probe) ==> {
            &&& probe.profile.capabilities.observability is Enabled ==> exists|k: int| #[trigger]
                first_asked(steps, ProbeEndpoint::NdnRsObservabilityRecent, k)
                    && steps[k].outcome is Answered && !(target.mode is BrowserEngine)
            &&& probe.profile.capabilities.trust_context is Enabled ==> exists|k: int| #[trigger]
                first_asked(steps, ProbeEndpoint::NdnRsTrustContext, k)
                    && steps[k].outcome is Answered && !(target.mode is BrowserEngine)
            &&& probe.profile.capabilities.tools is Enabled ==> exists|k: int| #[trigger]
                first_asked(steps, ProbeEndpoint::NdnRsTools, k) && steps[k].outcome is Answered
        },
{
    first_answer_counts(steps, ProbeEndpoint::NdnRsObservabilityRecent);
    first_answer_counts(steps, ProbeEndpoint::NdnRsTrustContext);
    first_answer_counts(steps, ProbeEndpoint::NdnRsTools);
    if r is Ok {
        let capabilities = r->Ok_0.profile.capabilities;
        if capabilities.observability is Enabled {
            let k = choose|k: int| #[trigger]
                first_asked(steps, ProbeEndpoint::NdnRsObservabilityRecent, k);
            assert(steps[k].outcome is Answered);
        }
        if capabilities.trust_context is Enabled {
            let k = choose|k: int| #[trigger]
                first_asked(steps, ProbeEndpoint::NdnRsTrustContext, k);
            assert(steps[k].outcome is Answered);
        }
        if capabilities.tools is Enabled {
            let k = choose|k: int| #[trigger] first_asked(steps, ProbeEndpoint::NdnRsTools, k);
            assert(steps[k].outcome is Answered);
        }
    }
}

/// What the answer of its own endpoint leaves a feature of a native forwarder
/// in: disabled where the name is not there, degraded where it answers badly,
/// unsupported where it cannot be reached or was not asked. An answer enables
/// it, but in the browser sandbox observability and trust stay degraded.
pub proof fn native_features_follow_their_answers(
    r: Result<ProbeResult, AttachError>,
    target: AttachTarget,
    steps: Seq<ProbeStep>,
    has_identity: bool,
    native: int,
    k: int,
)
    requires
        reads_as(r, target, steps, has_identity),
        target.profile_hint == Some(ForwarderKind::NdnRs) || target.profile_hint == Some(
            ForwarderKind::BrowserEngine,
        ) || (first_asked(steps, ProbeEndpoint::NdnRsCapabilities, native)
            && steps[native].outcome is Answered),
    ensures
        r matches Ok(probe) ==> {
            let found = probe.profile.capabilities;
            let asked = steps[k].outcome;
            let badly = asked is Unauthorized || asked is Timeout || asked is InvalidResponse;
            &&& found.nfd_basic is Enabled
            &&& found.ndnrs_native is Enabled
            &&& first_asked(steps, ProbeEndpoint::NdnRsObservabilityRecent, k) ==> {
                &&& asked is NotFound ==> found.observability is Disabled
                &&& badly ==> found.observability is Degraded
                &&& asked is TransportUnavailable ==> found.observability is Unsupported
                &&& asked is Answered && target.mode is BrowserEngine
                    ==> found.observability is Degraded
                &&& asked is Answered && !(target.mode is BrowserEngine)
                    ==> found.observability is Enabled
            }
            &&& never_asked(steps, ProbeEndpoint::NdnRsObservabilityRecent)
                ==> found.observability is Unsupported
            &&& first_asked(steps, ProbeEndpoint::NdnRsTrustContext, k) ==> {
                &&& asked is NotFound ==> found.trust_context is Disabled
                &&& badly ==> found.trust_context is Degraded
                &&& asked is TransportUnavailable ==> found.trust_context is Unsupported
                &&& asked is Answered && target.mode is BrowserEngine
                    ==> found.trust_context is Degraded
                &&& asked is Answered && !(target.mode is BrowserEngine)
                    ==> found.trust_context is Enabled
            }
            &&& never_asked(steps, ProbeEndpoint::NdnRsTrustContext)
                ==> found.trust_context is Unsupported
            &&& first_asked(steps, ProbeEndpoint::NdnRsTools, k) ==> {
                &&& asked is NotFound ==> found.tools is Disabled
                &&& badly ==> found.tools is Degraded
                &&& asked is TransportUnavailable ==> found.tools is Unsupported
                &&& asked is Answered ==> found.tools is Enabled
            }
            &&& never_asked(steps, ProbeEndpoint::NdnRsTools) ==> found.tools is Unsupported
        },
{
    first_answer_counts(steps, ProbeEndpoint::NdnRsCapabilities);
    first_answer_counts(steps, ProbeEndpoint::NdnRsObservabilityRecent);
    first_answer_counts(steps, ProbeEndpoint::NdnRsTrustContext);
    first_answer_counts(steps, ProbeEndpoint::NdnRsTools);
}

/// A forwarder that is neither hinted nor known to be native is read only: its
/// tables and its tools can be read, and nothing else is there.
pub proof fn other_forwarders_can_only_be_read(
    r: Result<ProbeResult, AttachError>,
    target: AttachTarget,
    steps: Seq<ProbeStep>,
    has_identity: bool,
)
    requires
        reads_as(r, target, steps, has_identity),
        target.profile_hint != Some(ForwarderKind::NdnRs),
        target.profile_hint != Some(ForwarderKind::BrowserEngine),
        forall|k: int| #[trigger]
            first_asked(steps, ProbeEndpoint::NdnRsCapabilities, k) ==> !(
            steps[k].outcome is Answered),
    ensures
        r matches Ok(probe) ==> {
            &&& probe.profile.capabilities.nfd_basic is ReadOnly
            &&& probe.profile.capabilities.tools is ReadOnly
            &&& probe.profile.capabilities.ndnrs_native is Unsupported
            &&& probe.profile.capabilities.observability is Unsupported
            &&& probe.profile.capabilities.trust_context is Unsupported
        },
{
    first_answer_counts(steps, ProbeEndpoint::NdnRsCapabilities);
}

/// A probe reports the target that was probed: the hinted kind, or a native one
/// exactly where the native probe was answered; its endpoint and how it is
/// reached; and the whole transcript.
pub proof fn probe_reports_the_target(
    r: Result<ProbeResult, AttachError>,
    target: AttachTarget,
    steps: Seq<ProbeStep>,
    has_identity: bool,
)
    requires
        reads_as(r, target, steps, has_identity),
    ensures
        r matches Ok(probe) ==> {
            let kind = probe.profile.kind;
            &&& target.profile_hint matches Some(hint) ==> kind == hint
            &&& target.profile_hint is None ==> (kind is NdnRs || kind is Unknown) && (
            kind is NdnRs <==> exists|k: int| #[trigger]
                first_asked(steps, ProbeEndpoint::NdnRsCapabilities, k)
                    && steps[k].outcome is Answered)
            &&& kind is NdnRs ==> probe.profile.version@ == "probed ndn-rs"@
            &&& kind is Nfd ==> probe.profile.version@ == "probed NFD"@
            &&& kind is YaNfd ==> probe.profile.version@ == "probed YaNFD"@
            &&& kind is BrowserEngine ==> probe.profile.version@ == "sandbox"@
            &&& kind is Unknown ==> probe.profile.version@ == "unknown"@
            &&& probe.profile.endpoint@ == target.endpoint@
            &&& probe.profile.attach_mode == target.mode
            &&& probe.has_identity == has_identity
            &&& probe.transcript.steps@ == steps
        },
{
    first_answer_counts(steps, ProbeEndpoint::NdnRsCapabilities);
    if answered(steps, ProbeEndpoint::NdnRsCapabilities) {
        let k = choose|k: int| #[trigger] first_asked(steps, ProbeEndpoint::NdnRsCapabilities, k);
        assert(steps[k].outcome is Answered);
    }
}

/// A probe succeeds exactly where the status or the face list was answered.
pub proof fn basic_answers_make_a_probe(
    r: Result<ProbeResult, AttachError>,
    target: AttachTarget,
    steps: Seq<ProbeStep>,
    has_identity: bool,
)
    requires
        reads_as(r, target, steps, has_identity),
    ensures
        r is Ok <==> exists|k: int|
            0 <= k < steps.len() && (#[trigger] steps[k]).outcome is Answered && (first_asked(
                steps,
                ProbeEndpoint::NfdStatusGeneral,
                k,
            ) || first_asked(steps, ProbeEndpoint::NfdFacesList, k)),
{
    first_answer_counts(steps, ProbeEndpoint::NfdStatusGeneral);
    first_answer_counts(steps, ProbeEndpoint::NfdFacesList);
    if answered(steps, ProbeEndpoint::NfdStatusGeneral) {
        let k = choose|k: int| #[trigger] first_asked(steps, ProbeEndpoint::NfdStatusGeneral, k);
        assert(steps[k].outcome is Answered);
    }
    if answered(steps, ProbeEndpoint::NfdFacesList) {
        let k = choose|k: int| #[trigger] first_asked(steps, ProbeEndpoint::NfdFacesList, k);
        assert(steps[k].outcome is Answered);
    }
}

proof fn lemma_blocking_error(steps: Seq<ProbeStep>, k: int)
    requires
        0 <= k <= steps.len(),
        forall|j: int|
            0 <= j < k ==> (#[trigger] steps[j]).outcome is Answered
                || steps[j].outcome is NotFound,
        k < steps.len() ==> error_of(steps[k].outcome) is Some,
    ensures
        blocking_error(steps) == (if k < steps.len() {
            error_of(steps[k].outcome)
        } else {
            None
        }),
    decreases k,
{
    if k > 0 {
        let rest = steps.drop_first();
        assert(steps[0].outcome is Answered || steps[0].outcome is NotFound);
        assert forall|j: int| 0 <= j < k - 1 implies (#[trigger] rest[j]).outcome is Answered
            || rest[j].outcome is NotFound by {
            assert(rest[j] == steps[j + 1]);
        }
        lemma_blocking_error(rest, k - 1);
    }
}

/// A failed probe gives the error of the first step that went wrong; where none
/// did, it tells how the target could not be reached.
pub proof fn failed_probe_tells_the_first_error(
    r: Result<ProbeResult, AttachError>,
    target: AttachTarget,
    steps: Seq<ProbeStep>,
    has_identity: bool,
    k: int,
)
    requires
        reads_as(r, target, steps, has_identity),
        0 <= k <= steps.len(),
        forall|j: int|
            0 <= j < k ==> (#[trigger] steps[j]).outcome is Answered
                || steps[j].outcome is NotFound,
    ensures
        r matches Err(error) ==> {
            &&& k < steps.len() && steps[k].outcome is Unauthorized ==> error is Unauthorized
            &&& k < steps.len() && steps[k].outcome is Timeout ==> error is Timeout
            &&& k < steps.len() && steps[k].outcome is InvalidResponse ==> error is InvalidResponse
            &&& k < steps.len() && steps[k].outcome is TransportUnavailable
                ==> error is UnsupportedProfile
            &&& k == steps.len() && target.mode is LocalDesktop
                ==> error is DesktopSocketUnavailable
            &&& k == steps.len() && !(target.mode is LocalDesktop)
                ==> error is BrowserTransportUnavailable
        },
{
    if k == steps.len() || error_of(steps[k].outcome) is Some {
        lemma_blocking_error(steps, k);
    }
}

/// A relay to a compatible forwarder is probed and can only be read, one to an
/// ndn-rs forwarder shows its native features, and one to an unknown forwarder
/// fails.
pub proof fn relays_are_probed_by_their_kind(
    r: Result<ProbeResult, AttachError>,
    target: AttachTarget,
    hint: ForwarderKind,
)
    requires
        reads_as(r, target, relay_steps(hint), false),
        target.profile_hint == Some(hint),
    ensures
        hint == ForwarderKind::Unknown ==> r == Err::<ProbeResult, AttachError>(
            AttachError::UnsupportedProfile,
        ),
        hint != ForwarderKind::Unknown ==> (r matches Ok(probe) && probe.profile.kind == hint
            && !probe.has_identity),
        hint == ForwarderKind::Nfd || hint == ForwarderKind::YaNfd ==> (r matches Ok(probe) && {
            &&& probe.profile.capabilities.ndnrs_native == FeatureState::Unsupported
            &&& probe.profile.capabilities.observability == FeatureState::Unsupported
            &&& probe.profile.capabilities.trust_context == FeatureState::Unsupported
        }),
        hint == ForwarderKind::NdnRs && target.mode == AttachMode::Relay ==> (r matches Ok(probe)
            && {
            &&& probe.profile.capabilities.ndnrs_native == FeatureState::Enabled
            &&& probe.profile.capabilities.observability == FeatureState::Enabled
            &&& probe.profile.capabilities.trust_context == FeatureState::Enabled
            &&& probe.profile.capabilities.tools == FeatureState::Enabled
        }),
{
    reveal_with_fuel(outcome_of, 7);
    reveal_with_fuel(blocking_error, 7);
}

/// A stand-in target answers by its kind: an ndn-rs forwarder with all its
/// features, the in-page engine with what its sandbox allows, a compatible
/// forwarder read-only; without a known kind the attach fails.
pub proof fn stand_in_targets_answer_by_their_kind(
    r: Result<ProbeResult, AttachError>,
    target: AttachTarget,
)
    requires
        mock_answer(r, target),
    ensures
        target.profile_hint is None || target.profile_hint == Some(ForwarderKind::Unknown) ==> r
            == Err::<ProbeResult, AttachError>(AttachError::UnsupportedProfile),
        target.profile_hint == Some(ForwarderKind::Nfd) || target.profile_hint == Some(
            ForwarderKind::YaNfd,
        ) ==> (r matches Ok(probe) && !probe.has_identity
            && probe.profile.capabilities.ndnrs_native == FeatureState::Unsupported
            && probe.profile.capabilities.trust_context == FeatureState::Unsupported),
        target.profile_hint == Some(ForwarderKind::NdnRs) && target.mode
            != AttachMode::BrowserEngine ==> (r matches Ok(probe) && probe.has_identity
            && probe.profile.capabilities.observability == FeatureState::Enabled
            && probe.profile.capabilities.trust_context == FeatureState::Enabled
            && probe.profile.capabilities.tools == FeatureState::Enabled),
        target.profile_hint == Some(ForwarderKind::BrowserEngine) ==> (r matches Ok(probe)
            && probe.has_identity && probe.profile.capabilities.observability
            == FeatureState::Degraded && probe.profile.capabilities.tools
            == FeatureState::Enabled),
        target.profile_hint == Some(ForwarderKind::BrowserEngine) && target.mode
            == AttachMode::BrowserEngine ==> (r matches Ok(probe)
            && probe.profile.capabilities.trust_context == FeatureState::Degraded),
{
    reveal_with_fuel(outcome_of, 7);
    reveal_with_fuel(blocking_error, 7);
}

/// What a probe told of a feature is read back from it, but that a feature that
/// can only be read counts as enabled, and one that is not supported as
/// disabled.
pub proof fn told_states_are_read_back(state: FeatureState)
    ensures
        state == FeatureState::Enabled || state == FeatureState::Disabled || state
            == FeatureState::Degraded ==> feature_state(true, Some(outcome_for(state)), false)
            == state,
        feature_state(true, Some(outcome_for(FeatureState::ReadOnly)), false)
            == FeatureState::Enabled,
        feature_state(true, Some(outcome_for(FeatureState::Unsupported)), false)
            == FeatureState::Disabled,
{
}

/// Attaching takes over the profile that was probed; an identity is what makes
/// trust more than missing.
pub proof fn attached_state_shows_the_probe(
    platform: PlatformKind,
    probe: ProbeResult,
    state: DashboardState,
)
    requires
        call_ensures(state_from_probe, (platform, probe), state),
    ensures
        state.platform == platform,
        state.profile == probe.profile,
        state.run_state == DashboardRunState::Attached,
        state.attach_state is Attached,
        probe.profile.capabilities.trust_context == FeatureState::Unsupported ==> state.trust
            == model::TrustPosture::Unsupported,
        probe.profile.capabilities.trust_context == FeatureState::Enabled && !probe.has_identity
            ==> state.trust == model::TrustPosture::NoIdentity,
        probe.profile.capabilities.trust_context == FeatureState::Enabled && probe.has_identity
            ==> state.trust == model::TrustPosture::Valid,
{
}

/// Every probe asks for a name of its own, under the forwarder's local
/// management.
pub proof fn probes_ask_for_their_own_name(endpoint: ProbeEndpoint)
    ensures
        endpoint == ProbeEndpoint::NfdStatusGeneral ==> endpoint.name_text()
            == "/localhost/nfd/status/general"@,
        endpoint == ProbeEndpoint::NfdFacesList ==> endpoint.name_text()
            == "/localhost/nfd/faces/list"@,
        endpoint == ProbeEndpoint::NdnRsCapabilities ==> endpoint.name_text()
            == "/localhost/nfd/ndnrs/capabilities"@,
        endpoint == ProbeEndpoint::NdnRsObservabilityRecent ==> endpoint.name_text()
            == "/localhost/nfd/observability/recent"@,
        endpoint == ProbeEndpoint::NdnRsTrustContext ==> endpoint.name_text()
            == "/localhost/nfd/security/context"@,
        endpoint == ProbeEndpoint::NdnRsTools ==> endpoint.name_text()
            == "/localhost/nfd/tools/list"@,
        "/localhost/nfd/"@.is_prefix_of(endpoint.name_text()),
{
    reveal_strlit("/localhost/nfd/");
    reveal_strlit("/localhost/nfd/status/general");
    reveal_strlit("/localhost/nfd/faces/list");
    reveal_strlit("/localhost/nfd/ndnrs/capabilities");
    reveal_strlit("/localhost/nfd/observability/recent");
    reveal_strlit("/localhost/nfd/security/context");
    reveal_strlit("/localhost/nfd/tools/list");
    let name = endpoint.name_text();
    let under = "/localhost/nfd/"@;
    assert(name.subrange(0, under.len() as int) =~= under);
}

/// The stand-in targets of a platform can be reached from it: a browser has its
/// own engine first and reaches ndn-rs over the web, a desktop reaches it over
/// its local socket.
pub proof fn stand_in_targets_fit_the_platform(targets: Seq<AttachTarget>, platform: PlatformKind)
    requires
        are_mock_targets(targets, platform),
    ensures
        platform == PlatformKind::Browser ==> {
            &&& targets.len() == 4
            &&& targets[0].mode == AttachMode::BrowserEngine && targets[0].endpoint@
                == "tab://engine"@
            &&& targets[1].mode == AttachMode::RemoteWeb && targets[1].endpoint@
                == "wss://forwarder.example/ndn"@
            &&& targets[1].profile_hint == Some(ForwarderKind::NdnRs)
        },
        platform == PlatformKind::Desktop ==> {
            &&& targets.len() == 3
            &&& targets[0].mode == AttachMode::LocalDesktop && targets[0].endpoint@
                == "unix:///run/ndn-fwd/mgmt.sock"@
            &&& targets[0].profile_hint == Some(ForwarderKind::NdnRs)
        },
        targets[targets.len() - 2].profile_hint == Some(ForwarderKind::Nfd),
        targets[targets.len() - 2].mode == AttachMode::LocalDesktop,
        targets[targets.len() - 1].profile_hint == Some(ForwarderKind::YaNfd),
        targets[targets.len() - 1].mode == AttachMode::Relay,
{
}

} // verus!
