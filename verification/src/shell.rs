//! The operator console: what its workspaces show and what its controls do.
//!
//! The console itself draws and listens. Every decision that it takes on the
//! way is a function of this module and of the modules below it.

use vstd::prelude::*;

use crate::client;
use crate::client::{ProbeOutcome, ProbeTranscript};
use crate::model::{DashboardState, Density, FeatureState, ObservePosture, PlatformKind, TrustPosture};
use crate::mutation;
use crate::mutation::{MutationPreflight, MutationStatus, PreflightStatus};
use crate::number;
use crate::number::{decimal, parse_u64, parse_usize};
use crate::text;
use crate::text::{same_text, trim};

pub mod attach;
pub mod console;
pub mod panels;
pub mod router;
pub mod workbench;

verus! {

#[derive(Clone, Copy, Debug, PartialEq, Eq, Structural)]
pub enum Workspace {
    Operations,
    Observe,
    Trust,
    Engine,
    Tools,
    Settings,
}

impl Workspace {
    pub const ALL: [Workspace; 6] = [
        Workspace::Operations,
        Workspace::Observe,
        Workspace::Trust,
        Workspace::Engine,
        Workspace::Tools,
        Workspace::Settings,
    ];

    /// The text of [`Workspace::label`].
    pub open spec fn label_text(self) -> Seq<char> {
        match self {
            Self::Operations => "Operations"@,
            Self::Observe => "Observe"@,
            Self::Trust => "Trust"@,
            Self::Engine => "Engine"@,
            Self::Tools => "Tools"@,
            Self::Settings => "Settings"@,
        }
    }

    pub fn label(self) -> (r: &'static str)
        ensures
            r@ == self.label_text(),
    {
        match self {
            Self::Operations => "Operations",
            Self::Observe => "Observe",
            Self::Trust => "Trust",
            Self::Engine => "Engine",
            Self::Tools => "Tools",
            Self::Settings => "Settings",
        }
    }

    /// The text of [`Workspace::icon`].
    pub open spec fn icon_text(self) -> Seq<char> {
        match self {
            Self::Operations => "OP"@,
            Self::Observe => "OB"@,
            Self::Trust => "TR"@,
            Self::Engine => "EN"@,
            Self::Tools => "TO"@,
            Self::Settings => "SE"@,
        }
    }

    pub fn icon(self) -> (r: &'static str)
        ensures
            r@ == self.icon_text(),
    {
        match self {
            Self::Operations => "OP",
            Self::Observe => "OB",
            Self::Trust => "TR",
            Self::Engine => "EN",
            Self::Tools => "TO",
            Self::Settings => "SE",
        }
    }

    /// The text of [`Workspace::test_id`].
    pub open spec fn test_id_text(self) -> Seq<char> {
        match self {
            Self::Operations => "operations"@,
            Self::Observe => "observe"@,
            Self::Trust => "trust"@,
            Self::Engine => "engine"@,
            Self::Tools => "tools"@,
            Self::Settings => "settings"@,
        }
    }

    pub fn test_id(self) -> (r: &'static str)
        ensures
            r@ == self.test_id_text(),
    {
        match self {
            Self::Operations => "operations",
            Self::Observe => "observe",
            Self::Trust => "trust",
            Self::Engine => "engine",
            Self::Tools => "tools",
            Self::Settings => "settings",
        }
    }
}

#[derive(Clone, Copy, Debug, PartialEq, Eq, Structural)]
pub enum ToolPanelKind {
    Ping,
    Iperf,
    Peek,
    Put,
    Diagnostics,
}

impl ToolPanelKind {
    pub const ALL: [Self; 5] = [
        Self::Ping,
        Self::Iperf,
        Self::Peek,
        Self::Put,
        Self::Diagnostics,
    ];

    /// The text of [`ToolPanelKind::label`].
    pub open spec fn label_text(self) -> Seq<char> {
        match self {
            Self::Ping => "Ping"@,
            Self::Iperf => "Iperf"@,
            Self::Peek => "Peek"@,
            Self::Put => "Put"@,
            Self::Diagnostics => "Diagnostics"@,
        }
    }

    pub fn label(self) -> (r: &'static str)
        ensures
            r@ == self.label_text(),
    {
        match self {
            Self::Ping => "Ping",
            Self::Iperf => "Iperf",
            Self::Peek => "Peek",
            Self::Put => "Put",
            Self::Diagnostics => "Diagnostics",
        }
    }
}

#[derive(Clone, Copy, Debug, PartialEq, Eq, Structural)]
pub enum TrustModal {
    Verify,
    Adopt,
    Sign,
    Enroll,
    Approvals,
    Trace,
    Maintenance,
    SafeBag,
}

impl TrustModal {
    /// The text of [`TrustModal::title`].
    pub open spec fn title_text(self) -> Seq<char> {
        match self {
            Self::Verify => "Verify Data"@,
            Self::Adopt => "Adopt Context"@,
            Self::Sign => "Signing Identity"@,
            Self::Enroll => "Enroll Certificate"@,
            Self::Approvals => "Approvals"@,
            Self::Trace => "Validation Trace"@,
            Self::Maintenance => "Trust Maintenance"@,
            Self::SafeBag => "SafeBag Preview"@,
        }
    }

    pub fn title(self) -> (r: &'static str)
        ensures
            r@ == self.title_text(),
    {
        match self {
            Self::Verify => "Verify Data",
            Self::Adopt => "Adopt Context",
            Self::Sign => "Signing Identity",
            Self::Enroll => "Enroll Certificate",
            Self::Approvals => "Approvals",
            Self::Trace => "Validation Trace",
            Self::Maintenance => "Trust Maintenance",
            Self::SafeBag => "SafeBag Preview",
        }
    }
}

/// A strategy that the console knows by name.
#[derive(Clone, Copy, Debug, PartialEq, Eq, Structural)]
pub enum KnownStrategy {
    BestRoute,
    Multicast,
    Ncc,
    Access,
    SelfLearning,
}

impl KnownStrategy {
    pub const ALL: [Self; 5] = [
        Self::BestRoute,
        Self::Multicast,
        Self::Ncc,
        Self::Access,
        Self::SelfLearning,
    ];

    /// The text of [`KnownStrategy::name`].
    pub open spec fn name_text(self) -> Seq<char> {
        match self {
            Self::BestRoute => "/ndn/strategy/best-route/v5"@,
            Self::Multicast => "/ndn/strategy/multicast/v5"@,
            Self::Ncc => "/ndn/strategy/ncc/v1"@,
            Self::Access => "/ndn/strategy/access/v1"@,
            Self::SelfLearning => "/ndn/strategy/self-learning"@,
        }
    }

    pub fn name(self) -> (r: &'static str)
        ensures
            r@ == self.name_text(),
    {
        match self {
            Self::BestRoute => "/ndn/strategy/best-route/v5",
            Self::Multicast => "/ndn/strategy/multicast/v5",
            Self::Ncc => "/ndn/strategy/ncc/v1",
            Self::Access => "/ndn/strategy/access/v1",
            Self::SelfLearning => "/ndn/strategy/self-learning",
        }
    }

    /// The text of [`KnownStrategy::label`].
    pub open spec fn label_text(self) -> Seq<char> {
        match self {
            Self::BestRoute => "Best Route"@,
            Self::Multicast => "Multicast"@,
            Self::Ncc => "NCC"@,
            Self::Access => "Access"@,
            Self::SelfLearning => "Self-Learning"@,
        }
    }

    pub fn label(self) -> (r: &'static str)
        ensures
            r@ == self.label_text(),
    {
        match self {
            Self::BestRoute => "Best Route",
            Self::Multicast => "Multicast",
            Self::Ncc => "NCC",
            Self::Access => "Access",
            Self::SelfLearning => "Self-Learning",
        }
    }
}

// ---------------------------------------------------------------------------
// Tones and labels
// ---------------------------------------------------------------------------

/// The tone in which something is shown.
#[derive(Clone, Copy, Debug, PartialEq, Eq, Structural)]
pub enum Tone {
    Good,
    Amber,
    Bad,
    Neutral,
    Muted,
    Info,
}

impl Tone {
    /// The text of [`Tone::label`].
    pub open spec fn label_text(self) -> Seq<char> {
        match self {
            Self::Good => "good"@,
            Self::Amber => "amber"@,
            Self::Bad => "bad"@,
            Self::Neutral => "neutral"@,
            Self::Muted => "muted"@,
            Self::Info => "info"@,
        }
    }

    pub fn label(self) -> (r: &'static str)
        ensures
            r@ == self.label_text(),
    {
        match self {
            Self::Good => "good",
            Self::Amber => "amber",
            Self::Bad => "bad",
            Self::Neutral => "neutral",
            Self::Muted => "muted",
            Self::Info => "info",
        }
    }

    /// The first tone where the condition holds, else the second.
    pub fn either(condition: bool, yes: Tone, no: Tone) -> (r: Tone)
        ensures
            r == (if condition {
                yes
            } else {
                no
            }),
    {
        if condition {
            yes
        } else {
            no
        }
    }
}

pub fn tone_for_feature(state: FeatureState) -> (r: Tone)
    ensures
        r == (match state {
            FeatureState::Enabled => Tone::Good,
            FeatureState::ReadOnly => Tone::Amber,
            FeatureState::Degraded => Tone::Amber,
            FeatureState::Disabled => Tone::Neutral,
            FeatureState::Unsupported => Tone::Muted,
        }),
{
    match state {
        FeatureState::Enabled => Tone::Good,
        FeatureState::ReadOnly | FeatureState::Degraded => Tone::Amber,
        FeatureState::Disabled => Tone::Neutral,
        FeatureState::Unsupported => Tone::Muted,
    }
}

/// The tone of a trust posture.
pub open spec fn trust_tone(posture: TrustPosture) -> Tone {
    match posture {
        TrustPosture::Valid => Tone::Good,
        TrustPosture::Unsupported => Tone::Muted,
        TrustPosture::NoIdentity => Tone::Amber,
        TrustPosture::Ephemeral => Tone::Amber,
        TrustPosture::Weakened => Tone::Amber,
        TrustPosture::Expired => Tone::Bad,
        TrustPosture::Error => Tone::Bad,
    }
}

pub fn tone_for_trust(posture: TrustPosture) -> (r: Tone)
    ensures
        r == trust_tone(posture),
{
    match posture {
        TrustPosture::Valid => Tone::Good,
        TrustPosture::Unsupported => Tone::Muted,
        TrustPosture::NoIdentity | TrustPosture::Ephemeral | TrustPosture::Weakened => Tone::Amber,
        TrustPosture::Expired | TrustPosture::Error => Tone::Bad,
    }
}

pub fn tone_for_preflight(status: PreflightStatus) -> (r: Tone)
    ensures
        r == (match status {
            PreflightStatus::Ready => Tone::Good,
            PreflightStatus::NeedsConfirmation => Tone::Amber,
            PreflightStatus::Blocked => Tone::Bad,
        }),
{
    match status {
        PreflightStatus::Ready => Tone::Good,
        PreflightStatus::NeedsConfirmation => Tone::Amber,
        PreflightStatus::Blocked => Tone::Bad,
    }
}

pub fn tone_for_mutation_status(status: MutationStatus) -> (r: Tone)
    ensures
        r == (match status {
            MutationStatus::Complete => Tone::Good,
            MutationStatus::Failed => Tone::Bad,
            MutationStatus::Blocked => Tone::Bad,
            MutationStatus::Retryable => Tone::Amber,
            MutationStatus::Pending => Tone::Neutral,
            MutationStatus::Running => Tone::Neutral,
        }),
{
    match status {
        MutationStatus::Complete => Tone::Good,
        MutationStatus::Failed | MutationStatus::Blocked => Tone::Bad,
        MutationStatus::Retryable => Tone::Amber,
        MutationStatus::Pending | MutationStatus::Running => Tone::Neutral,
    }
}

pub fn tone_for_observe(posture: ObservePosture) -> (r: Tone)
    ensures
        r == (match posture {
            ObservePosture::Enabled => Tone::Good,
            ObservePosture::Degraded => Tone::Amber,
            ObservePosture::Disabled => Tone::Amber,
            ObservePosture::Unsupported => Tone::Muted,
            ObservePosture::Error => Tone::Bad,
        }),
{
    match posture {
        ObservePosture::Enabled => Tone::Good,
        ObservePosture::Degraded | ObservePosture::Disabled => Tone::Amber,
        ObservePosture::Unsupported => Tone::Muted,
        ObservePosture::Error => Tone::Bad,
    }
}

pub fn platform_kind_label(kind: PlatformKind) -> (r: &'static str)
    ensures
        r@ == (match kind {
            PlatformKind::Browser => "browser/PWA"@,
            PlatformKind::Desktop => "desktop"@,
        }),
{
    match kind {
        PlatformKind::Browser => "browser/PWA",
        PlatformKind::Desktop => "desktop",
    }
}

/// Names the platform that a state runs on.
pub trait PlatformLabel {
    fn platform_label(&self) -> String;
}

impl PlatformLabel for DashboardState {
    fn platform_label(&self) -> (r: String)
        ensures
            r@ == (match self.platform {
                PlatformKind::Browser => "browser target"@,
                PlatformKind::Desktop => "desktop target"@,
            }),
    {
        match self.platform {
            PlatformKind::Browser => "browser target".to_string(),
            PlatformKind::Desktop => "desktop target".to_string(),
        }
    }
}

/// The style class of a density.
pub fn density_class(density: Density) -> (r: &'static str)
    ensures
        r@ == (match density {
            Density::Compact => "density-compact"@,
            Density::Comfortable => "density-comfortable"@,
        }),
{
    match density {
        Density::Compact => "density-compact",
        Density::Comfortable => "density-comfortable",
    }
}

/// The other density.
pub open spec fn toggled(density: Density) -> Density {
    match density {
        Density::Compact => Density::Comfortable,
        Density::Comfortable => Density::Compact,
    }
}

/// Switches between the two densities.
pub fn toggle(density: Density) -> (r: Density)
    ensures
        r == toggled(density),
{
    match density {
        Density::Compact => Density::Comfortable,
        Density::Comfortable => Density::Compact,
    }
}

/// Toggling twice leads back.
pub proof fn toggling_twice_leads_back(density: Density)
    ensures
        toggled(toggled(density)) == density,
        toggled(density) != density,
{
}

pub fn pending_action_label(preflight: &MutationPreflight) -> (r: &'static str)
    ensures
        r@ == (if preflight.status is Blocked {
            "blocked by preflight"@
        } else {
            "execution adapter pending"@
        }),
{
    if preflight.can_execute() {
        "execution adapter pending"
    } else {
        "blocked by preflight"
    }
}

/// The outcome of the first step whose endpoint has this name.
pub open spec fn outcome_named(steps: Seq<client::ProbeStep>, source: Seq<char>) -> Option<
    ProbeOutcome,
>
    decreases steps.len(),
{
    if steps.len() == 0 {
        None
    } else if steps[0].endpoint.name_text() == source {
        Some(steps[0].outcome)
    } else {
        outcome_named(steps.drop_first(), source)
    }
}

/// What is shown of the outcome of a probe.
pub open spec fn outcome_text(outcome: ProbeOutcome) -> Seq<char> {
    match outcome {
        ProbeOutcome::Answered => "ok"@,
        ProbeOutcome::NotFound => "404"@,
        ProbeOutcome::Unauthorized => "auth"@,
        ProbeOutcome::Timeout => "timeout"@,
        ProbeOutcome::InvalidResponse => "invalid"@,
        ProbeOutcome::TransportUnavailable => "offline"@,
    }
}

pub fn probe_outcome_label(transcript: Option<&ProbeTranscript>, source: &str) -> (r: &'static str)
    ensures
        r@ == (match transcript {
            None => ""@,
            Some(transcript) => match outcome_named(transcript.steps@, source@) {
                None => "not probed"@,
                Some(outcome) => outcome_text(outcome),
            },
        }),
{
    let held = match transcript {
        Some(held) => held,
        None => {
            return "";
        },
    };
    let ghost steps = held.steps@;
    assert(steps.skip(0) =~= steps);
    let mut i: usize = 0;
    while i < held.steps.len()
        invariant
            i <= held.steps@.len(),
            transcript == Some(held),
            steps == held.steps@,
            outcome_named(steps, source@) == outcome_named(steps.skip(i as int), source@),
        decreases held.steps@.len() - i,
    {
        if same_text(held.steps[i].endpoint.name(), source) {
            return match held.steps[i].outcome {
                ProbeOutcome::Answered => "ok",
                ProbeOutcome::NotFound => "404",
                ProbeOutcome::Unauthorized => "auth",
                ProbeOutcome::Timeout => "timeout",
                ProbeOutcome::InvalidResponse => "invalid",
                ProbeOutcome::TransportUnavailable => "offline",
            };
        }
        assert(steps.skip(i as int).drop_first() =~= steps.skip(i + 1));
        i = i + 1;
    }
    "not probed"
}

pub fn probe_time_label(probed_at_unix_s: Option<u64>) -> (r: String)
    ensures
        r@ == (match probed_at_unix_s {
            Some(ts) => "at "@ + number::decimal_text(ts as nat),
            None => "not run"@,
        }),
{
    match probed_at_unix_s {
        Some(ts) => "at ".to_string().concat(decimal(ts).as_str()),
        None => "not run".to_string(),
    }
}

// ---------------------------------------------------------------------------
// Input fields
// ---------------------------------------------------------------------------

/// The number in a field, white space around it aside.
pub open spec fn field_u64(value: Seq<char>) -> Option<nat> {
    number::read_unsigned(text::trimmed(value), u64::MAX as nat)
}

/// The size in a field, white space around it aside.
pub open spec fn field_usize(value: Seq<char>) -> Option<nat> {
    number::read_unsigned(text::trimmed(value), usize::MAX as nat)
}

/// The text in a field, white space around it aside; none where nothing is left.
pub open spec fn field_text(value: Seq<char>) -> Option<Seq<char>> {
    if text::trimmed(value).len() > 0 {
        Some(text::trimmed(value))
    } else {
        None
    }
}

pub fn parse_u64_or(value: &str, fallback: u64) -> (r: u64)
    ensures
        r as nat == (match field_u64(value@) {
            Some(n) => n,
            None => fallback as nat,
        }),
{
    match parse_u64(trim(value)) {
        Some(n) => n,
        None => fallback,
    }
}

pub fn parse_opt_u64(value: &str) -> (r: Option<u64>)
    ensures
        r is Some <==> field_u64(value@) is Some,
        r matches Some(n) ==> field_u64(value@) == Some(n as nat),
{
    parse_u64(trim(value))
}

pub fn parse_usize_or(value: &str, fallback: usize) -> (r: usize)
    ensures
        r as nat == (match field_usize(value@) {
            Some(n) => n,
            None => fallback as nat,
        }),
{
    match parse_usize(trim(value)) {
        Some(n) => n,
        None => fallback,
    }
}

pub fn parse_opt_usize(value: &str) -> (r: Option<usize>)
    ensures
        r is Some <==> field_usize(value@) is Some,
        r matches Some(n) ==> field_usize(value@) == Some(n as nat),
{
    parse_usize(trim(value))
}

pub fn optional_text(value: &str) -> (r: Option<String>)
    ensures
        text::opt_text(r) == field_text(value@),
{
    let trimmed = trim(value);
    if trimmed.is_empty() {
        None
    } else {
        Some(trimmed.to_string())
    }
}

// ---------------------------------------------------------------------------
// Notices
// ---------------------------------------------------------------------------

/// What the console says of the local forwarder.
#[derive(Debug, PartialEq, Eq)]
pub struct ForwarderActionNotice {
    pub tone: Tone,
    pub title: String,
    pub detail: String,
}

impl Clone for ForwarderActionNotice {
    fn clone(&self) -> (r: Self)
        ensures
            r == *self,
    {
        ForwarderActionNotice {
            tone: self.tone,
            title: self.title.clone(),
            detail: self.detail.clone(),
        }
    }
}

impl ForwarderActionNotice {
    /// The notice with these parts.
    pub open spec fn says(self, tone: Tone, title: Seq<char>, detail: Seq<char>) -> bool {
        &&& self.tone == tone
        &&& self.title@ == title
        &&& self.detail@ == detail
    }

    pub fn good(title: &str, detail: &str) -> (r: Self)
        ensures
            r.says(Tone::Good, title@, detail@),
    {
        ForwarderActionNotice {
            tone: Tone::Good,
            title: title.to_string(),
            detail: detail.to_string(),
        }
    }

    pub fn bad(title: &str, detail: &str) -> (r: Self)
        ensures
            r.says(Tone::Bad, title@, detail@),
    {
        ForwarderActionNotice {
            tone: Tone::Bad,
            title: title.to_string(),
            detail: detail.to_string(),
        }
    }

    pub fn neutral(title: &str, detail: &str) -> (r: Self)
        ensures
            r.says(Tone::Neutral, title@, detail@),
    {
        ForwarderActionNotice {
            tone: Tone::Neutral,
            title: title.to_string(),
            detail: detail.to_string(),
        }
    }
}

// ---------------------------------------------------------------------------
// Laws
// ---------------------------------------------------------------------------

/// Trust looks good only where it is valid, and bad where it has expired or
/// failed; an unsupported target is no warning.
pub proof fn trust_tones_follow_the_posture(posture: TrustPosture)
    ensures
        trust_tone(posture) is Good <==> posture is Valid,
        trust_tone(posture) is Bad <==> posture is Expired || posture is Error,
        trust_tone(posture) is Muted <==> posture is Unsupported,
        trust_tone(posture) is Amber <==> posture is NoIdentity || posture is Ephemeral
            || posture is Weakened,
{
}

/// Each outcome of a probe has its own word.
pub proof fn outcomes_are_told_apart(outcome: ProbeOutcome)
    ensures
        outcome is Answered ==> outcome_text(outcome) == "ok"@,
        outcome is NotFound ==> outcome_text(outcome) == "404"@,
        outcome is Unauthorized ==> outcome_text(outcome) == "auth"@,
        outcome is Timeout ==> outcome_text(outcome) == "timeout"@,
        outcome is InvalidResponse ==> outcome_text(outcome) == "invalid"@,
        outcome is TransportUnavailable ==> outcome_text(outcome) == "offline"@,
{
}

/// The outcome that is shown for a name is that of the first step that asked
/// it; a name that was not asked has none.
pub proof fn first_outcome_is_shown(steps: Seq<client::ProbeStep>, source: Seq<char>, k: int)
    requires
        0 <= k <= steps.len(),
        forall|j: int| 0 <= j < k ==> (#[trigger] steps[j]).endpoint.name_text() != source,
        k < steps.len() ==> steps[k].endpoint.name_text() == source,
    ensures
        k < steps.len() ==> outcome_named(steps, source) == Some(steps[k].outcome),
        k == steps.len() ==> outcome_named(steps, source) is None,
    decreases k,
{
    if k > 0 {
        let rest = steps.drop_first();
        assert(steps[0].endpoint.name_text() != source);
        assert forall|j: int| 0 <= j < k - 1 implies (#[trigger] rest[j]).endpoint.name_text()
            != source by {
            assert(rest[j] == steps[j + 1]);
        }
        if k < steps.len() {
            assert(rest[k - 1] == steps[k]);
        }
        first_outcome_is_shown(rest, source, k - 1);
    }
}

/// A field that holds a numeral, with or without blanks around it, is read as
/// its number; a blank field holds none, and no text.
pub proof fn fields_hold_their_numbers(value: Seq<char>, n: u64, m: usize)
    ensures
        text::trimmed(value) == number::decimal_text(n as nat) ==> field_u64(value) == Some(
            n as nat,
        ),
        text::trimmed(value) == number::decimal_text(m as nat) ==> field_usize(value) == Some(
            m as nat,
        ),
        text::trimmed(value).len() == 0 ==> field_u64(value) is None && field_usize(value) is None
            && field_text(value) is None,
        text::trimmed(value).len() > 0 ==> field_text(value) == Some(text::trimmed(value)),
{
    number::lemma_decimal_reads(n as nat);
    number::lemma_decimal_reads(m as nat);
}

/// Only what is wholly alright is shown as good, and only what failed or is
/// blocked as bad.
pub proof fn tones_tell_good_from_bad(
    feature: FeatureState,
    feature_tone: Tone,
    preflight: PreflightStatus,
    preflight_tone: Tone,
    mutation: MutationStatus,
    mutation_tone: Tone,
    observe: ObservePosture,
    observe_tone: Tone,
)
    requires
        call_ensures(tone_for_feature, (feature,), feature_tone),
        call_ensures(tone_for_preflight, (preflight,), preflight_tone),
        call_ensures(tone_for_mutation_status, (mutation,), mutation_tone),
        call_ensures(tone_for_observe, (observe,), observe_tone),
    ensures
        feature_tone == Tone::Good <==> feature == FeatureState::Enabled,
        feature_tone == Tone::Muted <==> feature == FeatureState::Unsupported,
        feature_tone != Tone::Bad,
        preflight_tone == Tone::Good <==> preflight == PreflightStatus::Ready,
        preflight_tone == Tone::Bad <==> preflight == PreflightStatus::Blocked,
        mutation_tone == Tone::Good <==> mutation == MutationStatus::Complete,
        mutation_tone == Tone::Bad <==> mutation == MutationStatus::Failed || mutation
            == MutationStatus::Blocked,
        observe_tone == Tone::Good <==> observe == ObservePosture::Enabled,
        observe_tone == Tone::Bad <==> observe == ObservePosture::Error,
        observe_tone == Tone::Muted <==> observe == ObservePosture::Unsupported,
{
}

} // verus!
