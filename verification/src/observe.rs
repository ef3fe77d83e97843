//! Observability models: spans, traces, their evidence, and the summary that
//! the dashboard shows of them.

use vstd::prelude::*;

use crate::model::{AttachMode, FeatureState, ForwarderProfile, ObservePosture};
use crate::text;

pub mod listing;
pub mod logs;
pub mod otlp;
pub mod traces;
pub mod tree;

pub use crate::observe::listing::{
    parse_recent_listing, recent_listing_name, span_data_name, spans_to_fetch, take_span,
    ObserveFetchError, RecentSpanRef,
};
pub use crate::observe::logs::{
    bridge_status_from_logs, correlated_logs_for_trace, parse_recent_log_response, LogEvidenceRow,
};
pub use crate::observe::otlp::{decode_otlp_span, DecodeError};
pub use crate::observe::traces::{
    filter_traces, group_spans, mock_trace, pit_fanout_rows, PitFanOutRow, TraceView,
};
pub use crate::observe::tree::{span_tree_rows, SpanTreeRow};

verus! {

pub const DEFAULT_OBSERVABILITY_PREFIX: &'static str = "/localhost/nfd/observability";

#[derive(Debug, PartialEq, Eq)]
pub struct SpanView {
    pub trace_id: String,
    pub span_id: String,
    pub parent_span_id: Option<String>,
    pub name: String,
    pub target: String,
    pub interest_name: Option<String>,
    pub face_id: Option<i64>,
    pub strategy: Option<String>,
    pub status: SpanStatus,
    pub duration_us: u64,
}

impl Clone for SpanView {
    fn clone(&self) -> (r: Self)
        ensures
            r == *self,
    {
        SpanView {
            trace_id: self.trace_id.clone(),
            span_id: self.span_id.clone(),
            parent_span_id: self.parent_span_id.clone(),
            name: self.name.clone(),
            target: self.target.clone(),
            interest_name: self.interest_name.clone(),
            face_id: self.face_id,
            strategy: self.strategy.clone(),
            status: self.status,
            duration_us: self.duration_us,
        }
    }
}

#[derive(Clone, Copy, Debug, PartialEq, Eq, Structural)]
pub enum SpanStatus {
    Unset,
    Okay,
    Error,
}

impl SpanStatus {
    /// The text of [`SpanStatus::label`].
    pub open spec fn label_text(self) -> Seq<char> {
        match self {
            Self::Unset => "unset"@,
            Self::Okay => "ok"@,
            Self::Error => "error"@,
        }
    }

    pub fn label(self) -> (r: &'static str)
        ensures
            r@ == self.label_text(),
    {
        match self {
            Self::Unset => "unset",
            Self::Okay => "ok",
            Self::Error => "error",
        }
    }
}

#[derive(Clone, Copy, Debug, PartialEq, Eq, Structural)]
pub enum BridgeExportState {
    Unknown,
    NotAttached,
    Ready,
    Error,
    Unavailable,
}

impl BridgeExportState {
    /// The text of [`BridgeExportState::label`].
    pub open spec fn label_text(self) -> Seq<char> {
        match self {
            Self::Unknown => "bridge unknown"@,
            Self::NotAttached => "bridge not attached"@,
            Self::Ready => "bridge observed"@,
            Self::Error => "bridge error"@,
            Self::Unavailable => "bridge unavailable"@,
        }
    }

    pub fn label(self) -> (r: &'static str)
        ensures
            r@ == self.label_text(),
    {
        match self {
            Self::Unknown => "bridge unknown",
            Self::NotAttached => "bridge not attached",
            Self::Ready => "bridge observed",
            Self::Error => "bridge error",
            Self::Unavailable => "bridge unavailable",
        }
    }

    /// The text of [`BridgeExportState::tone`].
    pub open spec fn tone_text(self) -> Seq<char> {
        match self {
            Self::Ready => "good"@,
            Self::Unknown => "amber"@,
            Self::NotAttached => "amber"@,
            Self::Unavailable => "muted"@,
            Self::Error => "bad"@,
        }
    }

    pub fn tone(self) -> (r: &'static str)
        ensures
            r@ == self.tone_text(),
    {
        match self {
            Self::Ready => "good",
            Self::Unknown => "amber",
            Self::NotAttached => "amber",
            Self::Unavailable => "muted",
            Self::Error => "bad",
        }
    }
}

#[derive(Debug, PartialEq, Eq)]
pub struct BridgeExportStatus {
    pub state: BridgeExportState,
    pub detail: String,
}

impl Clone for BridgeExportStatus {
    fn clone(&self) -> (r: Self)
        ensures
            r == *self,
    {
        BridgeExportStatus {
            state: self.state,
            detail: self.detail.clone(),
        }
    }
}

impl BridgeExportStatus {
    /// The status with these parts.
    pub open spec fn is(self, state: BridgeExportState, detail: Seq<char>) -> bool {
        self.state == state && self.detail@ == detail
    }

    pub fn new(state: BridgeExportState, detail: &str) -> (r: Self)
        ensures
            r.is(state, detail@),
    {
        BridgeExportStatus { state, detail: detail.to_string() }
    }
}

#[derive(Clone, Copy, Debug, PartialEq, Eq, Structural)]
pub enum ObserveSourceState {
    Live,
    Empty,
    Unsupported,
    Disabled,
    Degraded,
    Error,
}

impl ObserveSourceState {
    /// The text of [`ObserveSourceState::label`].
    pub open spec fn label_text(self) -> Seq<char> {
        match self {
            Self::Live => "live spans"@,
            Self::Empty => "no spans"@,
            Self::Unsupported => "not supported"@,
            Self::Disabled => "disabled"@,
            Self::Degraded => "degraded"@,
            Self::Error => "fetch error"@,
        }
    }

    pub fn label(self) -> (r: &'static str)
        ensures
            r@ == self.label_text(),
    {
        match self {
            Self::Live => "live spans",
            Self::Empty => "no spans",
            Self::Unsupported => "not supported",
            Self::Disabled => "disabled",
            Self::Degraded => "degraded",
            Self::Error => "fetch error",
        }
    }

    /// The text of [`ObserveSourceState::tone`].
    pub open spec fn tone_text(self) -> Seq<char> {
        match self {
            Self::Live => "good"@,
            Self::Empty => "amber"@,
            Self::Disabled => "amber"@,
            Self::Degraded => "amber"@,
            Self::Unsupported => "muted"@,
            Self::Error => "bad"@,
        }
    }

    pub fn tone(self) -> (r: &'static str)
        ensures
            r@ == self.tone_text(),
    {
        match self {
            Self::Live => "good",
            Self::Empty => "amber",
            Self::Disabled => "amber",
            Self::Degraded => "amber",
            Self::Unsupported => "muted",
            Self::Error => "bad",
        }
    }
}

#[derive(Debug, PartialEq, Eq)]
pub struct ObserveSummary {
    pub posture: ObservePosture,
    pub prefix: String,
    pub source: ObserveSourceState,
    pub guidance: Option<String>,
    pub bridge_status: BridgeExportStatus,
    pub recent_logs: Vec<LogEvidenceRow>,
    pub recent: Vec<TraceView>,
}

impl Clone for ObserveSummary {
    fn clone(&self) -> (r: Self)
        ensures
            r.posture == self.posture,
            r.prefix == self.prefix,
            r.source == self.source,
            r.guidance == self.guidance,
            r.bridge_status == self.bridge_status,
            r.recent_logs@ == self.recent_logs@,
            traces::models(r.recent@) == traces::models(self.recent@),
    {
        ObserveSummary {
            posture: self.posture,
            prefix: self.prefix.clone(),
            source: self.source,
            guidance: self.guidance.clone(),
            bridge_status: self.bridge_status.clone(),
            recent_logs: logs::copy_logs(&self.recent_logs),
            recent: traces::copy_traces(&self.recent),
        }
    }
}

/// The forwarder does not advertise traces at all.
pub open spec fn traceless(profile: ForwarderProfile) -> bool {
    profile.capabilities.observability is Unsupported
}

/// The bridge state where only guidance can be shown.
pub open spec fn guided_bridge(source: ObserveSourceState) -> BridgeExportState {
    match source {
        ObserveSourceState::Disabled => BridgeExportState::Unavailable,
        ObserveSourceState::Unsupported => BridgeExportState::Unavailable,
        ObserveSourceState::Error => BridgeExportState::Unavailable,
        _ => BridgeExportState::NotAttached,
    }
}

/// What guides the operator while spans are stood in for.
pub open spec fn mock_guidance(profile: ForwarderProfile) -> Seq<char> {
    if traceless(profile) {
        "NFD-compatible management is available, but ndn-rs native trace Data is not advertised by this forwarder."@
    } else {
        "Mock spans stand in until a browser-safe observe transport or local ndn-rs publisher is connected."@
    }
}

impl ObserveSummary {
    /// Stand-in spans, unless the forwarder has no traces; with this source and guidance.
    pub open spec fn is_mock(
        self,
        profile: ForwarderProfile,
        posture: ObservePosture,
        source: ObserveSourceState,
        guidance: Seq<char>,
    ) -> bool {
        &&& self.posture == posture
        &&& self.prefix@ == DEFAULT_OBSERVABILITY_PREFIX@
        &&& self.source == source
        &&& text::opt_text(self.guidance) == Some(guidance)
        &&& self.bridge_status.is(
            BridgeExportState::NotAttached,
            "No ndn-otel-bridge heartbeat or log evidence is attached to this dashboard session."@,
        )
        &&& self.recent_logs@.len() == 0
        &&& if traceless(profile) {
            self.recent@.len() == 0
        } else {
            self.recent@.len() == 1 && traces::is_mock_trace(self.recent@[0])
        }
    }

    /// No spans, and this guidance.
    pub open spec fn is_guidance(
        self,
        posture: ObservePosture,
        source: ObserveSourceState,
        guidance: Seq<char>,
    ) -> bool {
        &&& self.posture == posture
        &&& self.prefix@ == DEFAULT_OBSERVABILITY_PREFIX@
        &&& self.source == source
        &&& text::opt_text(self.guidance) == Some(guidance)
        &&& self.bridge_status.is(
            guided_bridge(source),
            "Bridge/export status is unavailable until native span publishing is reachable."@,
        )
        &&& self.recent_logs@.len() == 0
        &&& self.recent@.len() == 0
    }

    /// The traces of fetched spans.
    pub open spec fn shows_spans(self, prefix: Seq<char>, spans: Seq<SpanView>) -> bool {
        &&& self.posture is Enabled
        &&& self.prefix@ == prefix
        &&& self.source == (if spans.len() == 0 {
            ObserveSourceState::Empty
        } else {
            ObserveSourceState::Live
        })
        &&& text::opt_text(self.guidance) == (if spans.len() == 0 {
            Some(
                "Observability is enabled, but /recent did not list cached spans yet. Run traffic or a dashboard tool, then refresh."@,
            )
        } else {
            None
        })
        &&& traces::grouped(self.recent@, spans)
    }

    pub fn mock(profile: &ForwarderProfile, posture: ObservePosture) -> (r: Self)
        ensures
            r.is_mock(
                *profile,
                posture,
                if traceless(*profile) {
                    ObserveSourceState::Unsupported
                } else {
                    ObserveSourceState::Degraded
                },
                mock_guidance(*profile),
            ),
    {
        let unsupported = profile.capabilities.observability == FeatureState::Unsupported;
        let mut recent: Vec<TraceView> = Vec::new();
        if !unsupported {
            recent.push(mock_trace());
        }
        ObserveSummary {
            posture,
            prefix: DEFAULT_OBSERVABILITY_PREFIX.to_string(),
            source: if unsupported {
                ObserveSourceState::Unsupported
            } else {
                ObserveSourceState::Degraded
            },
            guidance: if unsupported {
                Some(
                    "NFD-compatible management is available, but ndn-rs native trace Data is not advertised by this forwarder.".to_string(),
                )
            } else {
                Some(
                    "Mock spans stand in until a browser-safe observe transport or local ndn-rs publisher is connected.".to_string(),
                )
            },
            bridge_status: BridgeExportStatus::new(
                BridgeExportState::NotAttached,
                "No ndn-otel-bridge heartbeat or log evidence is attached to this dashboard session.",
            ),
            recent_logs: Vec::new(),
            recent,
        }
    }

    pub fn guidance(posture: ObservePosture, source: ObserveSourceState, detail: &str) -> (r: Self)
        ensures
            r.is_guidance(posture, source, detail@),
    {
        ObserveSummary {
            posture,
            prefix: DEFAULT_OBSERVABILITY_PREFIX.to_string(),
            source,
            guidance: Some(detail.to_string()),
            bridge_status: BridgeExportStatus::new(
                match source {
                    ObserveSourceState::Disabled
                    | ObserveSourceState::Unsupported
                    | ObserveSourceState::Error => BridgeExportState::Unavailable,
                    _ => BridgeExportState::NotAttached,
                },
                "Bridge/export status is unavailable until native span publishing is reachable.",
            ),
            recent_logs: Vec::new(),
            recent: Vec::new(),
        }
    }

    pub fn from_spans(prefix: &str, spans: Vec<SpanView>) -> (r: Self)
        ensures
            r.shows_spans(prefix@, spans@),
            r.bridge_status.is(
                BridgeExportState::Unknown,
                "Span Data is available, but no ndn-otel-bridge heartbeat endpoint is defined yet."@,
            ),
            r.recent_logs@.len() == 0,
    {
        let ghost fetched = spans@;
        let recent = group_spans(spans);
        proof {
            traces::no_trace_without_spans(recent@, fetched);
        }
        let source = if recent.is_empty() {
            ObserveSourceState::Empty
        } else {
            ObserveSourceState::Live
        };
        let guidance: Option<String> = if recent.is_empty() {
            Some(
                "Observability is enabled, but /recent did not list cached spans yet. Run traffic or a dashboard tool, then refresh.".to_string(),
            )
        } else {
            None
        };
        ObserveSummary {
            posture: ObservePosture::Enabled,
            prefix: prefix.to_string(),
            source,
            guidance,
            bridge_status: BridgeExportStatus::new(
                BridgeExportState::Unknown,
                "Span Data is available, but no ndn-otel-bridge heartbeat endpoint is defined yet.",
            ),
            recent_logs: Vec::new(),
            recent,
        }
    }

    pub fn with_logs(self, logs: Vec<LogEvidenceRow>) -> (r: Self)
        ensures
            r.posture == self.posture,
            r.prefix == self.prefix,
            r.source == self.source,
            r.guidance == self.guidance,
            r.recent == self.recent,
            r.recent_logs == logs,
            logs::is_bridge_status(r.bridge_status, logs@, self.source),
    {
        let bridge_status = bridge_status_from_logs(logs.as_slice(), self.source);
        ObserveSummary {
            posture: self.posture,
            prefix: self.prefix,
            source: self.source,
            guidance: self.guidance,
            bridge_status,
            recent_logs: logs,
            recent: self.recent,
        }
    }
}

/// What a poll of the observability surface comes down to.
pub enum ObservePlan {
    /// The summary is known without asking the forwarder.
    Show(ObserveSummary),
    /// Spans and logs are to be fetched over the local socket.
    FetchDesktop,
}

/// What guides the operator where observability is degraded.
pub open spec fn degraded_guidance(mode: AttachMode) -> Seq<char> {
    match mode {
        AttachMode::BrowserEngine => {
            "Browser-engine spans are local to the in-page engine; this view uses the same TraceView model while the browser publisher transport is wired."@
        },
        AttachMode::RemoteWeb => {
            "This target needs a browser-safe observe transport or approved relay before live span Data can be fetched."@
        },
        AttachMode::Relay => {
            "This target needs a browser-safe observe transport or approved relay before live span Data can be fetched."@
        },
        AttachMode::LocalDesktop => {
            "The target exposes partial observability; live fetches are limited until ndn-rs native span endpoints are enabled."@
        },
    }
}

/// Decides what to show of a forwarder's observability, or that it has to be fetched.
pub fn plan_observe(profile: &ForwarderProfile, posture: ObservePosture) -> (r: ObservePlan)
    ensures
        r is FetchDesktop <==> posture is Enabled && profile.attach_mode is LocalDesktop,
        r matches ObservePlan::Show(summary) ==> match posture {
            ObservePosture::Unsupported => summary.is_guidance(
                posture,
                ObserveSourceState::Unsupported,
                "This attach target does not advertise ndn-rs observability. Engine counters remain available for NFD/YaNFD-compatible profiles."@,
            ),
            ObservePosture::Disabled => summary.is_guidance(
                posture,
                ObserveSourceState::Disabled,
                "The forwarder reports observability support, but the publisher is disabled. Enable the ndn-rs observability config and expose the configured prefix."@,
            ),
            ObservePosture::Degraded => summary.is_mock(
                *profile,
                posture,
                ObserveSourceState::Degraded,
                degraded_guidance(profile.attach_mode),
            ),
            ObservePosture::Error => summary.is_guidance(
                posture,
                ObserveSourceState::Error,
                "The last observability probe failed. Check attach transport, prefix routing, and publisher health."@,
            ),
            ObservePosture::Enabled => summary.is_mock(
                *profile,
                ObservePosture::Degraded,
                if traceless(*profile) {
                    ObserveSourceState::Unsupported
                } else {
                    ObserveSourceState::Degraded
                },
                "Live span fetch is enabled in the model; this attach mode still needs its browser-safe NDN transport implementation."@,
            ),
        },
{
    match posture {
        ObservePosture::Unsupported => ObservePlan::Show(
            ObserveSummary::guidance(
                posture,
                ObserveSourceState::Unsupported,
                "This attach target does not advertise ndn-rs observability. Engine counters remain available for NFD/YaNFD-compatible profiles.",
            ),
        ),
        ObservePosture::Disabled => ObservePlan::Show(
            ObserveSummary::guidance(
                posture,
                ObserveSourceState::Disabled,
                "The forwarder reports observability support, but the publisher is disabled. Enable the ndn-rs observability config and expose the configured prefix.",
            ),
        ),
        ObservePosture::Degraded => {
            let mut summary = ObserveSummary::mock(profile, posture);
            summary.source = ObserveSourceState::Degraded;
            let guidance = match profile.attach_mode {
                AttachMode::BrowserEngine => {
                    "Browser-engine spans are local to the in-page engine; this view uses the same TraceView model while the browser publisher transport is wired."
                },
                AttachMode::RemoteWeb | AttachMode::Relay => {
                    "This target needs a browser-safe observe transport or approved relay before live span Data can be fetched."
                },
                AttachMode::LocalDesktop => {
                    "The target exposes partial observability; live fetches are limited until ndn-rs native span endpoints are enabled."
                },
            };
            summary.guidance = Some(guidance.to_string());
            ObservePlan::Show(summary)
        },
        ObservePosture::Error => ObservePlan::Show(
            ObserveSummary::guidance(
                posture,
                ObserveSourceState::Error,
                "The last observability probe failed. Check attach transport, prefix routing, and publisher health.",
            ),
        ),
        ObservePosture::Enabled => match profile.attach_mode {
            AttachMode::LocalDesktop => ObservePlan::FetchDesktop,
            AttachMode::BrowserEngine | AttachMode::RemoteWeb | AttachMode::Relay => {
                let mut summary = ObserveSummary::mock(profile, ObservePosture::Degraded);
                summary.guidance = Some(
                    "Live span fetch is enabled in the model; this attach mode still needs its browser-safe NDN transport implementation.".to_string(),
                );
                ObservePlan::Show(summary)
            },
        },
    }
}

/// The summary of what a local fetch gave. Logs that could not be fetched count
/// as none; spans that could not be fetched are reported.
pub fn desktop_observe_summary(
    endpoint: &str,
    logs: Result<Vec<LogEvidenceRow>, ObserveFetchError>,
    spans: Result<Vec<SpanView>, ObserveFetchError>,
) -> (r: ObserveSummary)
    ensures
        match spans {
            Ok(spans) => {
                let rows = match logs {
                    Ok(rows) => rows@,
                    Err(_) => Seq::empty(),
                };
                &&& r.shows_spans(DEFAULT_OBSERVABILITY_PREFIX@, spans@)
                &&& r.recent_logs@ == rows
                &&& logs::is_bridge_status(r.bridge_status, rows, r.source)
            },
            Err(err) => r.is_guidance(
                ObservePosture::Error,
                ObserveSourceState::Error,
                "Could not fetch live observability Data from "@ + endpoint@ + ": "@
                    + err.message_text(),
            ),
        },
{
    let rows = match logs {
        Ok(rows) => rows,
        Err(_) => Vec::new(),
    };
    match spans {
        Ok(spans) => ObserveSummary::from_spans(DEFAULT_OBSERVABILITY_PREFIX, spans).with_logs(rows),
        Err(err) => ObserveSummary::guidance(
            ObservePosture::Error,
            ObserveSourceState::Error,
            "Could not fetch live observability Data from ".to_string().concat(endpoint).concat(
                ": ",
            ).concat(err.message().as_str()).as_str(),
        ),
    }
}

/// The summary where local fetches are not possible at all.
pub fn browser_observe_summary() -> (r: ObserveSummary)
    ensures
        r.is_guidance(
            ObservePosture::Error,
            ObserveSourceState::Error,
            "Desktop Unix-socket observability fetches are unavailable in the browser build."@,
        ),
{
    ObserveSummary::guidance(
        ObservePosture::Error,
        ObserveSourceState::Error,
        "Desktop Unix-socket observability fetches are unavailable in the browser build.",
    )
}

// ---------------------------------------------------------------------------
// Laws
// ---------------------------------------------------------------------------

/// Live means that spans were fetched; without any the view is empty and says
/// why.
pub proof fn live_means_that_spans_were_fetched(
    summary: ObserveSummary,
    prefix: Seq<char>,
    spans: Seq<SpanView>,
)
    requires
        summary.shows_spans(prefix, spans),
    ensures
        summary.posture == ObservePosture::Enabled,
        summary.prefix@ == prefix,
        spans.len() > 0 <==> summary.source == ObserveSourceState::Live,
        spans.len() == 0 <==> summary.source == ObserveSourceState::Empty,
        spans.len() == 0 <==> summary.guidance is Some,
        spans.len() == 0 ==> summary.recent@.len() == 0,
        forall|i: int|
            0 <= i < spans.len() ==> exists|t: int|
                0 <= t < summary.recent@.len() && (#[trigger] summary.recent@[t]).trace_id@ == (
                #[trigger] spans[i]).trace_id@,
{
    assert forall|i: int| 0 <= i < spans.len() implies exists|t: int|
        0 <= t < summary.recent@.len() && (#[trigger] summary.recent@[t]).trace_id@ == (
        #[trigger] spans[i]).trace_id@ by {
        let place = traces::every_span_is_in_its_trace(summary.recent@, spans, i);
        assert(summary.recent@[place.0].trace_id@ == spans[i].trace_id@);
    }
}

/// A guiding view shows no trace and no log, and its bridge is unavailable
/// where the target publishes nothing.
pub proof fn guidance_shows_no_evidence(
    summary: ObserveSummary,
    posture: ObservePosture,
    source: ObserveSourceState,
    guidance: Seq<char>,
)
    requires
        summary.is_guidance(posture, source, guidance),
    ensures
        summary.posture == posture,
        summary.source == source,
        summary.guidance matches Some(text) && text@ == guidance,
        summary.recent@.len() == 0 && summary.recent_logs@.len() == 0,
        source == ObserveSourceState::Disabled || source == ObserveSourceState::Unsupported
            || source == ObserveSourceState::Error ==> summary.bridge_status.state
            == BridgeExportState::Unavailable,
        source == ObserveSourceState::Live || source == ObserveSourceState::Empty || source
            == ObserveSourceState::Degraded ==> summary.bridge_status.state
            == BridgeExportState::NotAttached,
{
}

/// Spans are fetched from a local target that publishes them; every other
/// target is answered at once, in the posture that was asked for, and never as
/// if live spans had come.
pub proof fn spans_are_fetched_from_local_publishers(
    profile: ForwarderProfile,
    posture: ObservePosture,
    plan: ObservePlan,
)
    requires
        call_ensures(plan_observe, (&profile, posture), plan),
    ensures
        plan is FetchDesktop <==> posture == ObservePosture::Enabled && profile.attach_mode
            == AttachMode::LocalDesktop,
        plan matches ObservePlan::Show(summary) ==> {
            &&& summary.source != ObserveSourceState::Live
            &&& summary.source != ObserveSourceState::Empty
            &&& summary.guidance is Some
            &&& summary.recent_logs@.len() == 0
            &&& posture == ObservePosture::Enabled ==> summary.posture
                == ObservePosture::Degraded
            &&& posture != ObservePosture::Enabled ==> summary.posture == posture
            &&& posture == ObservePosture::Error ==> summary.source == ObserveSourceState::Error
            &&& posture == ObservePosture::Disabled ==> summary.source
                == ObserveSourceState::Disabled
            &&& posture == ObservePosture::Unsupported ==> summary.source
                == ObserveSourceState::Unsupported
            &&& posture == ObservePosture::Degraded ==> summary.source
                == ObserveSourceState::Degraded
            &&& profile.capabilities.observability == FeatureState::Unsupported
                ==> summary.recent@.len() == 0
        },
{
}

/// A failed span fetch is told with its endpoint and nothing is shown; logs that
/// could not be read do not keep spans from being shown.
pub proof fn failed_logs_do_not_hide_spans(
    endpoint: &str,
    logs: Result<Vec<LogEvidenceRow>, ObserveFetchError>,
    spans: Result<Vec<SpanView>, ObserveFetchError>,
    summary: ObserveSummary,
)
    requires
        call_ensures(desktop_observe_summary, (endpoint, logs, spans), summary),
    ensures
        spans is Err ==> summary.source == ObserveSourceState::Error && summary.posture
            == ObservePosture::Error && summary.recent@.len() == 0
            && summary.recent_logs@.len() == 0 && summary.guidance is Some,
        spans matches Ok(found) ==> summary.posture == ObservePosture::Enabled && (
        summary.source == ObserveSourceState::Live <==> found@.len() > 0),
        spans is Ok && logs is Err ==> summary.recent_logs@.len() == 0,
        spans is Ok ==> (logs matches Ok(rows) ==> summary.recent_logs@ == rows@),
{
}

/// What is alright is good, what failed is bad, and what is not there is muted.
pub proof fn tones_tell_good_from_bad(bridge: BridgeExportState, source: ObserveSourceState)
    ensures
        bridge == BridgeExportState::Ready ==> bridge.tone_text() == "good"@,
        bridge == BridgeExportState::Error ==> bridge.tone_text() == "bad"@,
        bridge == BridgeExportState::Unavailable ==> bridge.tone_text() == "muted"@,
        bridge == BridgeExportState::Unknown || bridge == BridgeExportState::NotAttached
            ==> bridge.tone_text() == "amber"@,
        source == ObserveSourceState::Live ==> source.tone_text() == "good"@,
        source == ObserveSourceState::Error ==> source.tone_text() == "bad"@,
        source == ObserveSourceState::Unsupported ==> source.tone_text() == "muted"@,
        source == ObserveSourceState::Empty || source == ObserveSourceState::Disabled || source
            == ObserveSourceState::Degraded ==> source.tone_text() == "amber"@,
{
}

/// A stand-in view says that traces are not advertised where the target has
/// none, and else that its spans only stand in.
pub proof fn stand_in_views_say_so(
    profile: ForwarderProfile,
    posture: ObservePosture,
    summary: ObserveSummary,
)
    requires
        call_ensures(ObserveSummary::mock, (&profile, posture), summary),
    ensures
        summary.posture == posture,
        profile.capabilities.observability == FeatureState::Unsupported ==> summary.source
            == ObserveSourceState::Unsupported && summary.recent@.len() == 0 && text::opt_text(
            summary.guidance,
        ) == Some(
            "NFD-compatible management is available, but ndn-rs native trace Data is not advertised by this forwarder."@,
        ),
        profile.capabilities.observability != FeatureState::Unsupported ==> summary.source
            == ObserveSourceState::Degraded && summary.recent@.len() == 1 && text::opt_text(
            summary.guidance,
        ) == Some(
            "Mock spans stand in until a browser-safe observe transport or local ndn-rs publisher is connected."@,
        ),
{
}

} // verus!
