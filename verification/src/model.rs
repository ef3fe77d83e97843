//! Dashboard state, capability models, and attach preferences.

use vstd::prelude::*;

use crate::operations::{AttachState, DashboardRunState, EngineBinding};
use crate::order;
use crate::order::{stable_order, SortKey};
use crate::text;
use crate::text::{same_text, strip_prefix};

pub mod fixtures;

verus! {

#[derive(Clone, Copy, Debug, PartialEq, Eq, Structural)]
pub enum PlatformKind {
    Browser,
    Desktop,
}

#[derive(Clone, Copy, Debug, PartialEq, Eq, Structural)]
pub enum AttachMode {
    BrowserEngine,
    RemoteWeb,
    LocalDesktop,
    Relay,
}

impl AttachMode {
    /// The text of [`AttachMode::label`].
    pub open spec fn label_text(self) -> Seq<char> {
        match self {
            Self::BrowserEngine => "browser engine"@,
            Self::RemoteWeb => "remote web"@,
            Self::LocalDesktop => "local desktop"@,
            Self::Relay => "relay"@,
        }
    }

    pub fn label(self) -> (r: &'static str)
        ensures
            r@ == self.label_text(),
    {
        match self {
            Self::BrowserEngine => "browser engine",
            Self::RemoteWeb => "remote web",
            Self::LocalDesktop => "local desktop",
            Self::Relay => "relay",
        }
    }
}

#[derive(Clone, Copy, Debug, PartialEq, Eq, Structural)]
pub enum ForwarderKind {
    NdnRs,
    Nfd,
    YaNfd,
    BrowserEngine,
    Unknown,
}

impl ForwarderKind {
    /// The text of [`ForwarderKind::label`].
    pub open spec fn label_text(self) -> Seq<char> {
        match self {
            Self::NdnRs => "ndn-rs"@,
            Self::Nfd => "NFD"@,
            Self::YaNfd => "YaNFD"@,
            Self::BrowserEngine => "browser engine"@,
            Self::Unknown => "unknown"@,
        }
    }

    pub fn label(self) -> (r: &'static str)
        ensures
            r@ == self.label_text(),
    {
        match self {
            Self::NdnRs => "ndn-rs",
            Self::Nfd => "NFD",
            Self::YaNfd => "YaNFD",
            Self::BrowserEngine => "browser engine",
            Self::Unknown => "unknown",
        }
    }
}

#[derive(Clone, Copy, Debug, PartialEq, Eq, Structural)]
pub enum FeatureState {
    Unsupported,
    Disabled,
    Degraded,
    ReadOnly,
    Enabled,
}

impl FeatureState {
    /// The text of [`FeatureState::label`].
    pub open spec fn label_text(self) -> Seq<char> {
        match self {
            Self::Unsupported => "unsupported"@,
            Self::Disabled => "disabled"@,
            Self::Degraded => "degraded"@,
            Self::ReadOnly => "read-only"@,
            Self::Enabled => "enabled"@,
        }
    }

    pub fn label(self) -> (r: &'static str)
        ensures
            r@ == self.label_text(),
    {
        match self {
            Self::Unsupported => "unsupported",
            Self::Disabled => "disabled",
            Self::Degraded => "degraded",
            Self::ReadOnly => "read-only",
            Self::Enabled => "enabled",
        }
    }

    /// Some part of the feature can be used.
    pub open spec fn available(self) -> bool {
        self is ReadOnly || self is Enabled || self is Degraded
    }

    pub fn is_available(self) -> (r: bool)
        ensures
            r == self.available(),
    {
        matches!(self, FeatureState::ReadOnly | FeatureState::Enabled | FeatureState::Degraded)
    }
}

#[derive(Clone, Copy, Debug, PartialEq, Eq, Structural)]
pub struct CapabilitySet {
    pub nfd_basic: FeatureState,
    pub ndnrs_native: FeatureState,
    pub observability: FeatureState,
    pub trust_context: FeatureState,
    pub tools: FeatureState,
}

impl CapabilitySet {
    /// Every feature in the same state.
    pub open spec fn uniform(state: FeatureState) -> CapabilitySet {
        CapabilitySet {
            nfd_basic: state,
            ndnrs_native: state,
            observability: state,
            trust_context: state,
            tools: state,
        }
    }

    /// What a forwarder without native extensions offers: reading only.
    pub open spec fn read_only() -> CapabilitySet {
        CapabilitySet {
            nfd_basic: FeatureState::ReadOnly,
            ndnrs_native: FeatureState::Unsupported,
            observability: FeatureState::Unsupported,
            trust_context: FeatureState::Unsupported,
            tools: FeatureState::ReadOnly,
        }
    }

    /// What an engine inside the browser offers.
    pub open spec fn sandboxed() -> CapabilitySet {
        CapabilitySet {
            nfd_basic: FeatureState::Enabled,
            ndnrs_native: FeatureState::Enabled,
            observability: FeatureState::Degraded,
            trust_context: FeatureState::Degraded,
            tools: FeatureState::Enabled,
        }
    }

    /// What probe evidence amounts to: nothing without basic management,
    /// reading only without native extensions, else what was observed.
    pub open spec fn normalized(evidence: CapabilityEvidence) -> CapabilitySet {
        if !evidence.nfd_basic {
            CapabilitySet::uniform(FeatureState::Unsupported)
        } else if evidence.ndnrs_native {
            CapabilitySet {
                nfd_basic: FeatureState::Enabled,
                ndnrs_native: FeatureState::Enabled,
                observability: evidence.observability,
                trust_context: evidence.trust_context,
                tools: evidence.tools,
            }
        } else {
            CapabilitySet::read_only()
        }
    }

    pub fn from_probe_evidence(evidence: &CapabilityEvidence) -> (r: Self)
        ensures
            r == CapabilitySet::normalized(*evidence),
    {
        if !evidence.nfd_basic {
            return CapabilitySet::unsupported();
        }
        if evidence.ndnrs_native {
            return CapabilitySet {
                nfd_basic: FeatureState::Enabled,
                ndnrs_native: FeatureState::Enabled,
                observability: evidence.observability,
                trust_context: evidence.trust_context,
                tools: evidence.tools,
            };
        }
        CapabilitySet::nfd_read_only()
    }

    pub fn ndnrs_native() -> (r: Self)
        ensures
            r == CapabilitySet::uniform(FeatureState::Enabled),
    {
        CapabilitySet {
            nfd_basic: FeatureState::Enabled,
            ndnrs_native: FeatureState::Enabled,
            observability: FeatureState::Enabled,
            trust_context: FeatureState::Enabled,
            tools: FeatureState::Enabled,
        }
    }

    pub fn nfd_read_only() -> (r: Self)
        ensures
            r == CapabilitySet::read_only(),
    {
        CapabilitySet {
            nfd_basic: FeatureState::ReadOnly,
            ndnrs_native: FeatureState::Unsupported,
            observability: FeatureState::Unsupported,
            trust_context: FeatureState::Unsupported,
            tools: FeatureState::ReadOnly,
        }
    }

    pub fn yanfd_read_only() -> (r: Self)
        ensures
            r == CapabilitySet::read_only(),
    {
        CapabilitySet::nfd_read_only()
    }

    pub fn browser_engine() -> (r: Self)
        ensures
            r == CapabilitySet::sandboxed(),
    {
        CapabilitySet {
            nfd_basic: FeatureState::Enabled,
            ndnrs_native: FeatureState::Enabled,
            observability: FeatureState::Degraded,
            trust_context: FeatureState::Degraded,
            tools: FeatureState::Enabled,
        }
    }

    pub fn unsupported() -> (r: Self)
        ensures
            r == CapabilitySet::uniform(FeatureState::Unsupported),
    {
        CapabilitySet {
            nfd_basic: FeatureState::Unsupported,
            ndnrs_native: FeatureState::Unsupported,
            observability: FeatureState::Unsupported,
            trust_context: FeatureState::Unsupported,
            tools: FeatureState::Unsupported,
        }
    }
}

#[derive(Clone, Copy, Debug, PartialEq, Eq, Structural)]
pub struct CapabilityEvidence {
    pub nfd_basic: bool,
    pub ndnrs_native: bool,
    pub observability: FeatureState,
    pub trust_context: FeatureState,
    pub tools: FeatureState,
}

impl CapabilityEvidence {
    pub fn none() -> (r: Self)
        ensures
            !r.nfd_basic,
            !r.ndnrs_native,
            r.observability is Unsupported,
            r.trust_context is Unsupported,
            r.tools is Unsupported,
    {
        CapabilityEvidence {
            nfd_basic: false,
            ndnrs_native: false,
            observability: FeatureState::Unsupported,
            trust_context: FeatureState::Unsupported,
            tools: FeatureState::Unsupported,
        }
    }
}

/// A forwarder that is not native never offers more than reading, whatever the
/// other probes claimed.
pub proof fn non_native_is_read_only(evidence: CapabilityEvidence)
    requires
        !evidence.ndnrs_native,
    ensures
        ({
            let capabilities = CapabilitySet::normalized(evidence);
            &&& !(capabilities.nfd_basic is Enabled)
            &&& !(capabilities.tools is Enabled)
            &&& capabilities.ndnrs_native is Unsupported
            &&& capabilities.observability is Unsupported
            &&& capabilities.trust_context is Unsupported
        }),
{
}

/// Without basic management nothing is supported, whatever else was probed.
pub proof fn missing_management_is_unsupported(evidence: CapabilityEvidence)
    requires
        !evidence.nfd_basic,
    ensures
        CapabilitySet::normalized(evidence) == CapabilitySet::uniform(FeatureState::Unsupported),
{
}

#[derive(Debug, PartialEq, Eq)]
pub struct ForwarderProfile {
    pub kind: ForwarderKind,
    pub version: String,
    pub endpoint: String,
    pub attach_mode: AttachMode,
    pub capabilities: CapabilitySet,
}

impl Clone for ForwarderProfile {
    fn clone(&self) -> (r: Self)
        ensures
            r == *self,
    {
        ForwarderProfile {
            kind: self.kind,
            version: self.version.clone(),
            endpoint: self.endpoint.clone(),
            attach_mode: self.attach_mode,
            capabilities: self.capabilities,
        }
    }
}

impl ForwarderProfile {
    /// The profile with these parts.
    pub open spec fn is(
        self,
        kind: ForwarderKind,
        version: Seq<char>,
        endpoint: Seq<char>,
        attach_mode: AttachMode,
        capabilities: CapabilitySet,
    ) -> bool {
        &&& self.kind == kind
        &&& self.version@ == version
        &&& self.endpoint@ == endpoint
        &&& self.attach_mode == attach_mode
        &&& self.capabilities == capabilities
    }

    pub fn display_name(&self) -> (r: String)
        ensures
            r@ == self.kind.label_text() + " "@ + self.version@,
    {
        self.kind.label().to_string().concat(" ").concat(self.version.as_str())
    }
}

/// The part of an endpoint that is a socket path.
pub open spec fn socket_text(endpoint: Seq<char>) -> Seq<char> {
    if "unix://"@.is_prefix_of(endpoint) {
        endpoint.skip("unix://"@.len() as int)
    } else {
        endpoint
    }
}

/// The socket path of an endpoint: `unix://` in front is cut off.
pub fn socket_path(endpoint: &str) -> (r: String)
    ensures
        r@ == socket_text(endpoint@),
{
    match strip_prefix(endpoint, "unix://") {
        Some(path) => path.to_string(),
        None => endpoint.to_string(),
    }
}

#[derive(Debug, PartialEq, Eq)]
pub struct AttachTarget {
    pub label: String,
    pub endpoint: String,
    pub mode: AttachMode,
    pub profile_hint: Option<ForwarderKind>,
}

impl Clone for AttachTarget {
    fn clone(&self) -> (r: Self)
        ensures
            r == *self,
    {
        AttachTarget {
            label: self.label.clone(),
            endpoint: self.endpoint.clone(),
            mode: self.mode,
            profile_hint: self.profile_hint,
        }
    }
}

/// The label of the hinted forwarder, or `unknown`.
pub open spec fn hint_text(hint: Option<ForwarderKind>) -> Seq<char> {
    match hint {
        Some(kind) => kind.label_text(),
        None => "unknown"@,
    }
}

impl AttachTarget {
    /// The target with these parts.
    pub open spec fn is(
        self,
        label: Seq<char>,
        endpoint: Seq<char>,
        mode: AttachMode,
        profile_hint: Option<ForwarderKind>,
    ) -> bool {
        &&& self.label@ == label
        &&& self.endpoint@ == endpoint
        &&& self.mode == mode
        &&& self.profile_hint == profile_hint
    }

    /// How a target is told apart: mode, hint, and endpoint.
    pub open spec fn id_text(self) -> Seq<char> {
        self.mode.label_text() + ":"@ + hint_text(self.profile_hint) + ":"@ + self.endpoint@
    }

    pub fn id(&self) -> (r: String)
        ensures
            r@ == self.id_text(),
    {
        let hint = match self.profile_hint {
            Some(kind) => kind.label(),
            None => "unknown",
        };
        self.mode.label().to_string().concat(":").concat(hint).concat(":").concat(
            self.endpoint.as_str(),
        )
    }
}

#[derive(Clone, Copy, Debug, PartialEq, Eq, Structural)]
pub enum TargetPlatformStatus {
    Available,
    NeedsDesktop,
    NeedsBrowser,
    NeedsBridge,
}

impl TargetPlatformStatus {
    /// The text of [`TargetPlatformStatus::label`].
    pub open spec fn label_text(self) -> Seq<char> {
        match self {
            Self::Available => "available"@,
            Self::NeedsDesktop => "desktop only"@,
            Self::NeedsBrowser => "browser only"@,
            Self::NeedsBridge => "bridge required"@,
        }
    }

    pub fn label(self) -> (r: &'static str)
        ensures
            r@ == self.label_text(),
    {
        match self {
            Self::Available => "available",
            Self::NeedsDesktop => "desktop only",
            Self::NeedsBrowser => "browser only",
            Self::NeedsBridge => "bridge required",
        }
    }

    pub fn is_available(self) -> (r: bool)
        ensures
            r == (self is Available),
    {
        self == TargetPlatformStatus::Available
    }
}

#[derive(Debug, PartialEq, Eq)]
pub struct SavedAttachTarget {
    pub id: String,
    pub label: String,
    pub endpoint: String,
    pub mode: AttachMode,
    pub profile_hint: Option<ForwarderKind>,
    pub pinned: bool,
    pub last_connected_unix_s: Option<u64>,
}

impl Clone for SavedAttachTarget {
    fn clone(&self) -> (r: Self)
        ensures
            r == *self,
    {
        SavedAttachTarget {
            id: self.id.clone(),
            label: self.label.clone(),
            endpoint: self.endpoint.clone(),
            mode: self.mode,
            profile_hint: self.profile_hint,
            pinned: self.pinned,
            last_connected_unix_s: self.last_connected_unix_s,
        }
    }
}

impl SavedAttachTarget {
    /// This entry saves `target`, under the target's id.
    pub open spec fn saves(
        self,
        target: AttachTarget,
        pinned: bool,
        last_connected_unix_s: Option<u64>,
    ) -> bool {
        &&& self.id@ == target.id_text()
        &&& self.target() == target
        &&& self.pinned == pinned
        &&& self.last_connected_unix_s == last_connected_unix_s
    }

    /// The target that the entry saves.
    pub open spec fn target(self) -> AttachTarget {
        AttachTarget {
            label: self.label,
            endpoint: self.endpoint,
            mode: self.mode,
            profile_hint: self.profile_hint,
        }
    }

    /// Whether the platform can reach the target by itself.
    pub open spec fn status_on(self, platform: PlatformKind) -> TargetPlatformStatus {
        if platform is Browser && self.mode is LocalDesktop {
            TargetPlatformStatus::NeedsBridge
        } else if platform is Desktop && self.mode is BrowserEngine {
            TargetPlatformStatus::NeedsBrowser
        } else {
            TargetPlatformStatus::Available
        }
    }

    pub fn from_target(
        target: AttachTarget,
        pinned: bool,
        last_connected_unix_s: Option<u64>,
    ) -> (r: Self)
        ensures
            r.saves(target, pinned, last_connected_unix_s),
    {
        SavedAttachTarget {
            id: target.id(),
            label: target.label,
            endpoint: target.endpoint,
            mode: target.mode,
            profile_hint: target.profile_hint,
            pinned,
            last_connected_unix_s,
        }
    }

    pub fn attach_target(&self) -> (r: AttachTarget)
        ensures
            r == self.target(),
    {
        AttachTarget {
            label: self.label.clone(),
            endpoint: self.endpoint.clone(),
            mode: self.mode,
            profile_hint: self.profile_hint,
        }
    }

    pub fn platform_status(&self, platform: PlatformKind) -> (r: TargetPlatformStatus)
        ensures
            r == self.status_on(platform),
    {
        match (platform, self.mode) {
            (PlatformKind::Browser, AttachMode::LocalDesktop) => TargetPlatformStatus::NeedsBridge,
            (PlatformKind::Desktop, AttachMode::BrowserEngine) => TargetPlatformStatus::NeedsBrowser,
            _ => TargetPlatformStatus::Available,
        }
    }
}

/// A saved target gives back the target that it was made from.
pub proof fn saved_target_round_trip(
    saved: SavedAttachTarget,
    target: AttachTarget,
    pinned: bool,
    last_connected_unix_s: Option<u64>,
)
    requires
        saved.saves(target, pinned, last_connected_unix_s),
    ensures
        saved.target() == target,
        saved.id@ == saved.target().id_text(),
{
}

#[derive(Clone, Copy, Debug, PartialEq, Eq, Structural)]
pub enum Density {
    Compact,
    Comfortable,
}

impl Density {
    /// The text of [`Density::label`].
    pub open spec fn label_text(self) -> Seq<char> {
        match self {
            Self::Compact => "compact"@,
            Self::Comfortable => "comfortable"@,
        }
    }

    pub fn label(self) -> (r: &'static str)
        ensures
            r@ == self.label_text(),
    {
        match self {
            Self::Compact => "compact",
            Self::Comfortable => "comfortable",
        }
    }
}

#[derive(Debug, PartialEq, Eq)]
pub struct DashboardPreferences {
    pub platform: PlatformKind,
    pub density: Density,
    pub selected_target_id: Option<String>,
    pub saved_targets: Vec<SavedAttachTarget>,
    pub recent_targets: Vec<SavedAttachTarget>,
}

/// A copy of a list of saved targets.
pub fn copy_targets(targets: &Vec<SavedAttachTarget>) -> (r: Vec<SavedAttachTarget>)
    ensures
        r@ == targets@,
{
    let mut out: Vec<SavedAttachTarget> = Vec::new();
    let mut i: usize = 0;
    while i < targets.len()
        invariant
            i <= targets@.len(),
            out@ == targets@.take(i as int),
        decreases targets@.len() - i,
    {
        out.push(targets[i].clone());
        i = i + 1;
        assert(out@ =~= targets@.take(i as int));
    }
    assert(targets@.take(i as int) =~= targets@);
    out
}

impl Clone for DashboardPreferences {
    fn clone(&self) -> (r: Self)
        ensures
            r.same_as(*self),
    {
        DashboardPreferences {
            platform: self.platform,
            density: self.density,
            selected_target_id: self.selected_target_id.clone(),
            saved_targets: copy_targets(&self.saved_targets),
            recent_targets: copy_targets(&self.recent_targets),
        }
    }
}

/// The place of the first target with this id, or the length.
pub open spec fn place_of(targets: Seq<SavedAttachTarget>, id: Seq<char>) -> int
    decreases targets.len(),
{
    if targets.len() == 0 {
        0
    } else if targets[0].id@ == id {
        0
    } else {
        1 + place_of(targets.skip(1), id)
    }
}

/// Some target has this id.
pub open spec fn has_target(targets: Seq<SavedAttachTarget>, id: Seq<char>) -> bool {
    exists|i: int| 0 <= i < targets.len() && (#[trigger] targets[i]).id@ == id
}

/// The list with `target` in place of the first entry of the same id, or behind all.
pub open spec fn upserted(
    targets: Seq<SavedAttachTarget>,
    target: SavedAttachTarget,
) -> Seq<SavedAttachTarget> {
    let place = place_of(targets, target.id@);
    if place < targets.len() {
        targets.update(place, target)
    } else {
        targets.push(target)
    }
}

pub proof fn lemma_place_of(targets: Seq<SavedAttachTarget>, id: Seq<char>)
    ensures
        0 <= place_of(targets, id) <= targets.len(),
        place_of(targets, id) < targets.len() ==> targets[place_of(targets, id)].id@ == id,
        place_of(targets, id) < targets.len() <==> has_target(targets, id),
        forall|i: int|
            0 <= i < place_of(targets, id) ==> (#[trigger] targets[i]).id@ != id,
    decreases targets.len(),
{
    if targets.len() > 0 && targets[0].id@ != id {
        let rest = targets.skip(1);
        lemma_place_of(rest, id);
        let p = place_of(targets, id);
        assert forall|i: int| 0 <= i < p implies (#[trigger] targets[i]).id@ != id by {
            if i > 0 {
                assert(rest[i - 1] == targets[i]);
            }
        }
        if p < targets.len() {
            assert(rest[p - 1] == targets[p]);
        } else if has_target(targets, id) {
            let i = choose|i: int| 0 <= i < targets.len() && (#[trigger] targets[i]).id@ == id;
            assert(rest[i - 1] == targets[i]);
        }
    }
}

/// The place of the first target with this id, or the length.
fn find_target(targets: &Vec<SavedAttachTarget>, id: &str) -> (r: usize)
    ensures
        r == place_of(targets@, id@),
        r <= targets@.len(),
{
    let mut i: usize = 0;
    assert(targets@.skip(0) =~= targets@);
    while i < targets.len()
        invariant
            i <= targets@.len(),
            place_of(targets@, id@) == i + place_of(targets@.skip(i as int), id@),
        decreases targets@.len() - i,
    {
        if same_text(targets[i].id.as_str(), id) {
            return i;
        }
        assert(targets@.skip(i as int).skip(1) =~= targets@.skip(i + 1));
        i = i + 1;
    }
    i
}

/// Puts `target` in place of the first entry of the same id, or behind all.
pub fn upsert_target(targets: &mut Vec<SavedAttachTarget>, target: SavedAttachTarget)
    ensures
        final(targets)@ == upserted(old(targets)@, target),
{
    proof {
        lemma_place_of(targets@, target.id@);
    }
    let place = find_target(targets, target.id.as_str());
    if place < targets.len() {
        targets.set(place, target);
    } else {
        targets.push(target);
    }
}

/// Pinned targets first, each group by label.
pub open spec fn by_pin_and_label(target: SavedAttachTarget) -> order::Rank {
    order::rank_of(
        if target.pinned {
            0
        } else {
            1
        },
        target.label@,
    )
}

/// When a target was last connected, 0 where it never was.
pub open spec fn connected_at(target: SavedAttachTarget) -> u64 {
    match target.last_connected_unix_s {
        Some(at) => at,
        None => 0,
    }
}

/// The latest connection first.
pub open spec fn by_latest(target: SavedAttachTarget) -> order::Rank {
    order::rank_of((u64::MAX - connected_at(target)) as nat, Seq::empty())
}

/// The targets in the stable order of a key.
pub open spec fn sorted_targets(
    targets: Seq<SavedAttachTarget>,
    key: spec_fn(SavedAttachTarget) -> order::Rank,
) -> Seq<SavedAttachTarget> {
    order::picked(targets, order::order_of(targets.map_values(key)))
}

/// Pinned targets first, each group by label.
pub open spec fn sorted_by_pin(targets: Seq<SavedAttachTarget>) -> Seq<SavedAttachTarget> {
    sorted_targets(targets, |t: SavedAttachTarget| by_pin_and_label(t))
}

/// The latest connection first.
pub open spec fn sorted_by_latest(targets: Seq<SavedAttachTarget>) -> Seq<SavedAttachTarget> {
    sorted_targets(targets, |t: SavedAttachTarget| by_latest(t))
}

fn pick_targets(targets: &Vec<SavedAttachTarget>, keys: &Vec<SortKey>) -> (r: Vec<SavedAttachTarget>)
    requires
        keys@.len() == targets@.len(),
    ensures
        r@ == order::picked(targets@, order::order_of(order::ranks(keys@))),
{
    let places = stable_order(keys);
    let mut out: Vec<SavedAttachTarget> = Vec::new();
    let mut i: usize = 0;
    while i < places.len()
        invariant
            i <= places@.len(),
            out@.len() == i,
            places@.len() == targets@.len(),
            forall|j: int|
                0 <= j < places@.len() ==> 0 <= #[trigger] order::positions(places@)[j]
                    < targets@.len(),
            forall|j: int|
                0 <= j < i ==> #[trigger] out@[j] == targets@[order::positions(places@)[j]],
        decreases places@.len() - i,
    {
        assert(order::positions(places@)[i as int] == places@[i as int]);
        out.push(targets[places[i]].clone());
        i = i + 1;
    }
    assert(out@ =~= order::picked(targets@, order::order_of(order::ranks(keys@))));
    out
}

fn sort_by_pin_and_label(targets: &Vec<SavedAttachTarget>) -> (r: Vec<SavedAttachTarget>)
    ensures
        r@ == sorted_by_pin(targets@),
{
    let mut keys: Vec<SortKey> = Vec::new();
    let ghost key = |t: SavedAttachTarget| by_pin_and_label(t);
    let mut i: usize = 0;
    while i < targets.len()
        invariant
            i <= targets@.len(),
            key == (|t: SavedAttachTarget| by_pin_and_label(t)),
            keys@.len() == i,
            forall|j: int| 0 <= j < i ==> (#[trigger] keys@[j])@ == key(targets@[j]),
        decreases targets@.len() - i,
    {
        keys.push(
            SortKey {
                rank: if targets[i].pinned {
                    0
                } else {
                    1
                },
                first: targets[i].label.clone(),
                second: String::new(),
            },
        );
        assert(keys@[i as int]@ == key(targets@[i as int]));
        i = i + 1;
    }
    assert(order::ranks(keys@) =~= targets@.map_values(key));
    pick_targets(targets, &keys)
}

fn sort_by_latest(targets: &Vec<SavedAttachTarget>) -> (r: Vec<SavedAttachTarget>)
    ensures
        r@ == sorted_by_latest(targets@),
{
    let mut keys: Vec<SortKey> = Vec::new();
    let ghost key = |t: SavedAttachTarget| by_latest(t);
    let mut i: usize = 0;
    while i < targets.len()
        invariant
            i <= targets@.len(),
            key == (|t: SavedAttachTarget| by_latest(t)),
            keys@.len() == i,
            forall|j: int| 0 <= j < i ==> (#[trigger] keys@[j])@ == key(targets@[j]),
        decreases targets@.len() - i,
    {
        let at: u64 = match targets[i].last_connected_unix_s {
            Some(at) => at,
            None => 0,
        };
        keys.push(
            SortKey { rank: u64::MAX - at, first: String::new(), second: String::new() },
        );
        assert(keys@[i as int]@ == key(targets@[i as int]));
        i = i + 1;
    }
    assert(order::ranks(keys@) =~= targets@.map_values(key));
    pick_targets(targets, &keys)
}

/// Entry `i` of a list saves the `i`-th target: the first two pinned, each a
/// second younger than the one before it.
pub open spec fn default_entries(saved: Seq<SavedAttachTarget>, targets: Seq<AttachTarget>) -> bool {
    &&& saved.len() == targets.len()
    &&& forall|i: int|
        0 <= i < saved.len() ==> (#[trigger] saved[i]).saves(
            targets[i],
            i < 2,
            Some((1_717_200_000 + i) as u64),
        )
}

/// The id of the first target.
pub open spec fn first_id(targets: Seq<SavedAttachTarget>) -> Option<Seq<char>> {
    if targets.len() > 0 {
        Some(targets[0].id@)
    } else {
        None
    }
}

/// At most the first `n` targets.
pub open spec fn at_most(targets: Seq<SavedAttachTarget>, n: int) -> Seq<SavedAttachTarget> {
    if targets.len() > n {
        targets.take(n)
    } else {
        targets
    }
}

/// `target`, connected at `now`.
pub open spec fn connected(target: SavedAttachTarget, now_unix_s: u64) -> SavedAttachTarget {
    SavedAttachTarget { last_connected_unix_s: Some(now_unix_s), ..target }
}

impl DashboardPreferences {
    /// Equal contents.
    pub open spec fn same_as(self, other: DashboardPreferences) -> bool {
        &&& self.platform == other.platform
        &&& self.density == other.density
        &&& self.selected_target_id == other.selected_target_id
        &&& self.saved_targets@ == other.saved_targets@
        &&& self.recent_targets@ == other.recent_targets@
    }

    /// The saved target whose id is selected.
    pub open spec fn selected(self) -> Option<SavedAttachTarget> {
        match self.selected_target_id {
            Some(id) => {
                let place = place_of(self.saved_targets@, id@);
                if place < self.saved_targets@.len() {
                    Some(self.saved_targets@[place])
                } else {
                    None
                }
            },
            None => None,
        }
    }

    /// The preferences of a platform that nothing was stored for: the targets,
    /// sorted, the first one selected and the first three recent.
    pub open spec fn is_default(self, platform: PlatformKind, targets: Seq<AttachTarget>) -> bool {
        &&& self.platform == platform
        &&& self.density is Compact
        &&& exists|saved: Seq<SavedAttachTarget>|
            default_entries(saved, targets) && self.saved_targets@ == #[trigger] sorted_by_pin(saved)
        &&& text::opt_text(self.selected_target_id) == first_id(self.saved_targets@)
        &&& self.recent_targets@ == at_most(self.saved_targets@, 3)
    }

    pub fn defaults(platform: PlatformKind, targets: Vec<AttachTarget>) -> (r: Self)
        requires
            targets@.len() <= u64::MAX - 1_717_200_000,
        ensures
            r.is_default(platform, targets@),
    {
        let mut saved: Vec<SavedAttachTarget> = Vec::new();
        let mut i: usize = 0;
        while i < targets.len()
            invariant
                i <= targets@.len() <= u64::MAX - 1_717_200_000,
                default_entries(saved@, targets@.take(i as int)),
            decreases targets@.len() - i,
        {
            let entry = SavedAttachTarget::from_target(
                targets[i].clone(),
                i < 2,
                Some(1_717_200_000 + i as u64),
            );
            saved.push(entry);
            i = i + 1;
        }
        assert(targets@.take(i as int) =~= targets@);
        let saved_targets = sort_by_pin_and_label(&saved);
        assert(default_entries(saved@, targets@));
        let selected_target_id = if saved_targets.len() > 0 {
            Some(saved_targets[0].id.clone())
        } else {
            None
        };
        let mut recent_targets = copy_targets(&saved_targets);
        recent_targets.truncate(3);
        assert(recent_targets@ =~= at_most(saved_targets@, 3));
        DashboardPreferences {
            platform,
            density: Density::Compact,
            selected_target_id,
            saved_targets,
            recent_targets,
        }
    }

    pub fn selected_target(&self) -> (r: Option<&SavedAttachTarget>)
        ensures
            r is Some <==> self.selected() is Some,
            r matches Some(target) ==> Some(*target) == self.selected(),
    {
        match &self.selected_target_id {
            Some(id) => {
                let place = find_target(&self.saved_targets, id.as_str());
                if place < self.saved_targets.len() {
                    Some(&self.saved_targets[place])
                } else {
                    None
                }
            },
            None => None,
        }
    }

    pub fn select(&mut self, id: &str)
        ensures
            text::opt_text(final(self).selected_target_id) == (if has_target(
                old(self).saved_targets@,
                id@,
            ) {
                Some(id@)
            } else {
                text::opt_text(old(self).selected_target_id)
            }),
            final(self).platform == old(self).platform,
            final(self).density == old(self).density,
            final(self).saved_targets == old(self).saved_targets,
            final(self).recent_targets == old(self).recent_targets,
    {
        proof {
            lemma_place_of(self.saved_targets@, id@);
        }
        if find_target(&self.saved_targets, id) < self.saved_targets.len() {
            self.selected_target_id = Some(id.to_string());
        }
    }

    pub fn remember_connected(&mut self, target: SavedAttachTarget, now_unix_s: u64)
        ensures
            final(self).remembers(*old(self), target, now_unix_s),
    {
        let mut target = target;
        target.last_connected_unix_s = Some(now_unix_s);
        self.selected_target_id = Some(target.id.clone());
        upsert_target(&mut self.saved_targets, target.clone());
        upsert_target(&mut self.recent_targets, target);
        let mut recent = sort_by_latest(&self.recent_targets);
        let ghost sorted = recent@;
        recent.truncate(5);
        assert(recent@ =~= at_most(sorted, 5));
        self.recent_targets = recent;
    }

    /// These are the preferences `before` after `target` was connected at `now`.
    pub open spec fn remembers(
        self,
        before: DashboardPreferences,
        target: SavedAttachTarget,
        now_unix_s: u64,
    ) -> bool {
        let entry = connected(target, now_unix_s);
        &&& self.platform == before.platform
        &&& self.density == before.density
        &&& self.selected_target_id == Some(target.id)
        &&& self.saved_targets@ == upserted(before.saved_targets@, entry)
        &&& self.recent_targets@ == at_most(
            sorted_by_latest(upserted(before.recent_targets@, entry)),
            5,
        )
    }
}

/// After a connection the selected target is the one that was connected, with
/// the time of the connection.
pub proof fn connected_target_is_selected(
    before: DashboardPreferences,
    after: DashboardPreferences,
    target: SavedAttachTarget,
    now_unix_s: u64,
)
    requires
        after.remembers(before, target, now_unix_s),
    ensures
        after.selected() == Some(connected(target, now_unix_s)),
{
    let entry = connected(target, now_unix_s);
    lemma_place_of(before.saved_targets@, entry.id@);
    lemma_place_of(after.saved_targets@, entry.id@);
    let place = place_of(before.saved_targets@, entry.id@);
    let found = place_of(after.saved_targets@, entry.id@);
    assert(after.saved_targets@[place] == entry);
    if found < place {
        assert(after.saved_targets@[found] == before.saved_targets@[found]);
    }
}

/// No two targets share an id.
pub open spec fn distinct_ids(targets: Seq<SavedAttachTarget>) -> bool {
    forall|i: int, j: int|
        0 <= i < j < targets.len() ==> (#[trigger] targets[i]).id@ != (#[trigger] targets[j]).id@
}

/// Putting a target into a list of distinct ids keeps the ids distinct.
pub proof fn upsert_keeps_ids_distinct(targets: Seq<SavedAttachTarget>, target: SavedAttachTarget)
    requires
        distinct_ids(targets),
    ensures
        distinct_ids(upserted(targets, target)),
{
    lemma_place_of(targets, target.id@);
    let place = place_of(targets, target.id@);
    let after = upserted(targets, target);
    assert forall|i: int, j: int| 0 <= i < j < after.len() implies (#[trigger] after[i]).id@ != (
    #[trigger] after[j]).id@ by {
        if i != place && j != place {
            assert(after[i] == targets[i] && after[j] == targets[j]);
        } else if j == place {
            assert(after[i] == targets[i]);
        } else if place < targets.len() {
            assert(after[j] == targets[j]);
            assert(targets[place].id@ == target.id@);
        }
    }
}

/// The recent targets are at most five, the latest connection first, and the
/// list never loses the connection just made unless five that are no earlier
/// push it out.
pub proof fn recent_targets_are_latest_first(
    before: DashboardPreferences,
    after: DashboardPreferences,
    target: SavedAttachTarget,
    now_unix_s: u64,
)
    requires
        after.remembers(before, target, now_unix_s),
    ensures
        after.recent_targets@.len() <= 5,
        forall|i: int, j: int|
            0 <= i < j < after.recent_targets@.len() ==> connected_at(
                #[trigger] after.recent_targets@[i],
            ) >= connected_at(#[trigger] after.recent_targets@[j]),
        after.recent_targets@.contains(connected(target, now_unix_s)) || (
        after.recent_targets@.len() == 5 && forall|i: int|
            0 <= i < 5 ==> connected_at(#[trigger] after.recent_targets@[i]) >= now_unix_s),
{
    let key = |t: SavedAttachTarget| by_latest(t);
    let entry = connected(target, now_unix_s);
    let held = upserted(before.recent_targets@, entry);
    let keys = held.map_values(key);
    let places = order::order_of(keys);
    let sorted = sorted_by_latest(held);
    order::order_of_is_stable(keys);
    assert forall|i: int, j: int| 0 <= i < j < sorted.len() implies connected_at(
        #[trigger] sorted[i],
    ) >= connected_at(#[trigger] sorted[j]) by {
        assert(order::comes_before(keys, places[i], places[j]));
        assert(keys[places[i]] == key(sorted[i]) && keys[places[j]] == key(sorted[j]));
        text::lemma_text_lt_irreflexive(Seq::<char>::empty());
    }
    lemma_place_of(before.recent_targets@, entry.id@);
    let at = place_of(before.recent_targets@, entry.id@);
    assert(held[at] == entry);
    assert(places.contains(at));
    let p = choose|p: int| 0 <= p < places.len() && places[p] == at;
    assert(sorted[p] == entry);
    if p < after.recent_targets@.len() {
        assert(after.recent_targets@[p] == entry);
    } else {
        assert forall|i: int| 0 <= i < 5 implies connected_at(
            #[trigger] after.recent_targets@[i],
        ) >= now_unix_s by {
            assert(after.recent_targets@[i] == sorted[i]);
            assert(connected_at(sorted[i]) >= connected_at(sorted[p]));
        }
    }
}

#[derive(Clone, Copy, Debug, PartialEq, Eq)]
pub struct CapabilityMatrixRow {
    pub feature: &'static str,
    pub state: FeatureState,
    pub source_probe: &'static str,
    pub explanation: &'static str,
}

impl CapabilityMatrixRow {
    /// The row with these parts.
    pub open spec fn is(
        self,
        feature: Seq<char>,
        state: FeatureState,
        source_probe: Seq<char>,
        explanation: Seq<char>,
    ) -> bool {
        &&& self.feature@ == feature
        &&& self.state == state
        &&& self.source_probe@ == source_probe
        &&& self.explanation@ == explanation
    }
}

pub open spec fn management_note(state: FeatureState) -> Seq<char> {
    match state {
        FeatureState::Enabled => "Full management surface is available."@,
        FeatureState::ReadOnly => "Read datasets are available; writes stay gated."@,
        _ => "Common management datasets were not confirmed."@,
    }
}

pub open spec fn native_note(state: FeatureState) -> Seq<char> {
    match state {
        FeatureState::Enabled => "Native Trust, Observe, and Tools extensions can light up."@,
        _ => "Use the compatible Engine views; native controls remain hidden."@,
    }
}

pub open spec fn observability_note(state: FeatureState) -> Seq<char> {
    match state {
        FeatureState::Enabled => "Recent traces and span detail can be fetched."@,
        FeatureState::Degraded => "Trace surface exists but is partial or sandbox-limited."@,
        FeatureState::Disabled => "The forwarder supports observability but has it disabled."@,
        _ => "Show compatible counters and logs instead of native trace views."@,
    }
}

pub open spec fn trust_note(state: FeatureState) -> Seq<char> {
    match state {
        FeatureState::Enabled => "Trust posture and approval workflows can be shown."@,
        FeatureState::Degraded => "Trust UX is available with sandbox limitations."@,
        _ => "Do not report missing identity for non-ndn-rs forwarders."@,
    }
}

pub open spec fn tools_note(state: FeatureState) -> Seq<char> {
    match state {
        FeatureState::Enabled => "Structured tool runs can stream and pivot to Observe."@,
        FeatureState::ReadOnly => "Diagnostics can inspect compatible state only."@,
        _ => "Tool actions must be disabled for this target."@,
    }
}

pub fn capability_matrix(profile: &ForwarderProfile) -> (r: Vec<CapabilityMatrixRow>)
    ensures
        r@.len() == 5,
        r@[0].is(
            "NFD-compatible management"@,
            profile.capabilities.nfd_basic,
            "/localhost/nfd/status/general"@,
            management_note(profile.capabilities.nfd_basic),
        ),
        r@[1].is(
            "ndn-rs native extensions"@,
            profile.capabilities.ndnrs_native,
            "/localhost/nfd/ndnrs/capabilities"@,
            native_note(profile.capabilities.ndnrs_native),
        ),
        r@[2].is(
            "Observability spans"@,
            profile.capabilities.observability,
            "/localhost/nfd/observability/recent"@,
            observability_note(profile.capabilities.observability),
        ),
        r@[3].is(
            "TrustContext"@,
            profile.capabilities.trust_context,
            "/localhost/nfd/security/context"@,
            trust_note(profile.capabilities.trust_context),
        ),
        r@[4].is(
            "Tools"@,
            profile.capabilities.tools,
            "/localhost/nfd/tools/list"@,
            tools_note(profile.capabilities.tools),
        ),
{
    let capabilities = profile.capabilities;
    vec![
        CapabilityMatrixRow {
            feature: "NFD-compatible management",
            state: capabilities.nfd_basic,
            source_probe: "/localhost/nfd/status/general",
            explanation: match capabilities.nfd_basic {
                FeatureState::Enabled => "Full management surface is available.",
                FeatureState::ReadOnly => "Read datasets are available; writes stay gated.",
                _ => "Common management datasets were not confirmed.",
            },
        },
        CapabilityMatrixRow {
            feature: "ndn-rs native extensions",
            state: capabilities.ndnrs_native,
            source_probe: "/localhost/nfd/ndnrs/capabilities",
            explanation: match capabilities.ndnrs_native {
                FeatureState::Enabled => {
                    "Native Trust, Observe, and Tools extensions can light up."
                },
                _ => "Use the compatible Engine views; native controls remain hidden.",
            },
        },
        CapabilityMatrixRow {
            feature: "Observability spans",
            state: capabilities.observability,
            source_probe: "/localhost/nfd/observability/recent",
            explanation: match capabilities.observability {
                FeatureState::Enabled => "Recent traces and span detail can be fetched.",
                FeatureState::Degraded => "Trace surface exists but is partial or sandbox-limited.",
                FeatureState::Disabled => {
                    "The forwarder supports observability but has it disabled."
                },
                _ => "Show compatible counters and logs instead of native trace views.",
            },
        },
        CapabilityMatrixRow {
            feature: "TrustContext",
            state: capabilities.trust_context,
            source_probe: "/localhost/nfd/security/context",
            explanation: match capabilities.trust_context {
                FeatureState::Enabled => "Trust posture and approval workflows can be shown.",
                FeatureState::Degraded => "Trust UX is available with sandbox limitations.",
                _ => "Do not report missing identity for non-ndn-rs forwarders.",
            },
        },
        CapabilityMatrixRow {
            feature: "Tools",
            state: capabilities.tools,
            source_probe: "/localhost/nfd/tools/list",
            explanation: match capabilities.tools {
                FeatureState::Enabled => "Structured tool runs can stream and pivot to Observe.",
                FeatureState::ReadOnly => "Diagnostics can inspect compatible state only.",
                _ => "Tool actions must be disabled for this target.",
            },
        },
    ]
}

#[derive(Clone, Copy, Debug, PartialEq, Eq, Structural)]
pub enum TrustPosture {
    Unsupported,
    NoIdentity,
    Ephemeral,
    Valid,
    Expired,
    Weakened,
    Error,
}

impl TrustPosture {
    /// The text of [`TrustPosture::label`].
    pub open spec fn label_text(self) -> Seq<char> {
        match self {
            Self::Unsupported => "trust unsupported"@,
            Self::NoIdentity => "no identity"@,
            Self::Ephemeral => "ephemeral"@,
            Self::Valid => "trusted"@,
            Self::Expired => "expired"@,
            Self::Weakened => "schema weakened"@,
            Self::Error => "trust error"@,
        }
    }

    pub fn label(self) -> (r: &'static str)
        ensures
            r@ == self.label_text(),
    {
        match self {
            Self::Unsupported => "trust unsupported",
            Self::NoIdentity => "no identity",
            Self::Ephemeral => "ephemeral",
            Self::Valid => "trusted",
            Self::Expired => "expired",
            Self::Weakened => "schema weakened",
            Self::Error => "trust error",
        }
    }
}

#[derive(Clone, Copy, Debug, PartialEq, Eq, Structural)]
pub enum ObservePosture {
    Unsupported,
    Disabled,
    Enabled,
    Degraded,
    Error,
}

impl ObservePosture {
    /// The text of [`ObservePosture::label`].
    pub open spec fn label_text(self) -> Seq<char> {
        match self {
            Self::Unsupported => "observe unsupported"@,
            Self::Disabled => "observe disabled"@,
            Self::Enabled => "observe live"@,
            Self::Degraded => "observe degraded"@,
            Self::Error => "observe error"@,
        }
    }

    pub fn label(self) -> (r: &'static str)
        ensures
            r@ == self.label_text(),
    {
        match self {
            Self::Unsupported => "observe unsupported",
            Self::Disabled => "observe disabled",
            Self::Enabled => "observe live",
            Self::Degraded => "observe degraded",
            Self::Error => "observe error",
        }
    }
}

#[derive(Debug, PartialEq, Eq)]
pub struct DashboardState {
    pub platform: PlatformKind,
    pub density: Density,
    pub run_state: DashboardRunState,
    pub attach_state: AttachState,
    pub profile: ForwarderProfile,
    pub trust: TrustPosture,
    pub observe: ObservePosture,
}

impl Clone for DashboardState {
    fn clone(&self) -> (r: Self)
        ensures
            r == *self,
    {
        DashboardState {
            platform: self.platform,
            density: self.density,
            run_state: self.run_state,
            attach_state: self.attach_state.clone(),
            profile: self.profile.clone(),
            trust: self.trust,
            observe: self.observe,
        }
    }
}

impl DashboardState {
    pub fn detached(platform: PlatformKind) -> (r: Self)
        ensures
            r.platform == platform,
            r.density is Compact,
            r.run_state is Detached,
            r.attach_state == (AttachState::Detached { last_error: None }),
            fixtures::is_unsupported_profile(r.profile),
            r.trust is Unsupported,
            r.observe is Unsupported,
    {
        DashboardState {
            platform,
            density: Density::Compact,
            run_state: DashboardRunState::Detached,
            attach_state: AttachState::Detached { last_error: None },
            profile: fixtures::unsupported_profile(),
            trust: TrustPosture::Unsupported,
            observe: ObservePosture::Unsupported,
        }
    }

    pub fn mock_ndnrs(platform: PlatformKind) -> (r: Self)
        ensures
            r.platform == platform,
            r.density is Compact,
            r.run_state is Attached,
            r.attach_state matches AttachState::Attached { binding }
                && fixtures::is_ndnrs_profile(binding.profile, platform)
                && binding.binds(binding.profile, platform),
            fixtures::is_ndnrs_profile(r.profile, platform),
            r.trust is Valid,
            r.observe is Enabled,
    {
        DashboardState {
            platform,
            density: Density::Compact,
            run_state: DashboardRunState::Attached,
            attach_state: AttachState::Attached {
                binding: EngineBinding::from_profile(fixtures::ndnrs_profile(platform), platform),
            },
            profile: fixtures::ndnrs_profile(platform),
            trust: TrustPosture::Valid,
            observe: ObservePosture::Enabled,
        }
    }
}

/// The trust posture that capabilities and an identity amount to.
pub open spec fn trust_posture(capabilities: CapabilitySet, has_identity: bool) -> TrustPosture {
    if !capabilities.trust_context.available() {
        TrustPosture::Unsupported
    } else if has_identity {
        TrustPosture::Valid
    } else {
        TrustPosture::NoIdentity
    }
}

/// The observability posture that capabilities amount to.
pub open spec fn observe_posture(capabilities: CapabilitySet) -> ObservePosture {
    match capabilities.observability {
        FeatureState::Enabled => ObservePosture::Enabled,
        FeatureState::Degraded => ObservePosture::Degraded,
        FeatureState::Disabled => ObservePosture::Disabled,
        FeatureState::ReadOnly | FeatureState::Unsupported => ObservePosture::Unsupported,
    }
}

pub fn trust_from_capabilities(capabilities: &CapabilitySet, has_identity: bool) -> (r: TrustPosture)
    ensures
        r == trust_posture(*capabilities, has_identity),
{
    if !capabilities.trust_context.is_available() {
        TrustPosture::Unsupported
    } else if has_identity {
        TrustPosture::Valid
    } else {
        TrustPosture::NoIdentity
    }
}

pub fn observe_from_capabilities(capabilities: &CapabilitySet) -> (r: ObservePosture)
    ensures
        r == observe_posture(*capabilities),
{
    match capabilities.observability {
        FeatureState::Enabled => ObservePosture::Enabled,
        FeatureState::Degraded => ObservePosture::Degraded,
        FeatureState::Disabled => ObservePosture::Disabled,
        FeatureState::ReadOnly | FeatureState::Unsupported => ObservePosture::Unsupported,
    }
}

// ---------------------------------------------------------------------------
// Laws
// ---------------------------------------------------------------------------

proof fn lemma_first_place(targets: Seq<SavedAttachTarget>, id: Seq<char>, k: int)
    requires
        0 <= k <= targets.len(),
        forall|j: int| 0 <= j < k ==> (#[trigger] targets[j]).id@ != id,
        k < targets.len() ==> targets[k].id@ == id,
    ensures
        place_of(targets, id) == k,
    decreases k,
{
    if k > 0 {
        assert(targets[0].id@ != id);
        let rest = targets.skip(1);
        assert forall|j: int| 0 <= j < k - 1 implies (#[trigger] rest[j]).id@ != id by {
            assert(rest[j] == targets[j + 1]);
        }
        if k < targets.len() {
            assert(rest[k - 1] == targets[k]);
        }
        lemma_first_place(rest, id, k - 1);
    }
}

/// A target that is saved again takes the place of the first one with its id;
/// a new one comes last. Every other target stays as it was and where it was.
pub proof fn saving_replaces_or_appends(
    targets: Seq<SavedAttachTarget>,
    target: SavedAttachTarget,
    k: int,
)
    requires
        0 <= k <= targets.len(),
        forall|j: int| 0 <= j < k ==> (#[trigger] targets[j]).id@ != target.id@,
        k < targets.len() ==> targets[k].id@ == target.id@,
    ensures
        upserted(targets, target).len() == (if k < targets.len() {
            targets.len()
        } else {
            targets.len() + 1
        }),
        upserted(targets, target)[k] == target,
        forall|j: int|
            0 <= j < targets.len() && j != k ==> #[trigger] upserted(targets, target)[j]
                == targets[j],
{
    lemma_first_place(targets, target.id@, k);
}

/// Connecting to a target notes when, selects it and saves it; the time is all
/// that changes of it.
pub proof fn connecting_is_remembered(
    before: DashboardPreferences,
    after: DashboardPreferences,
    target: SavedAttachTarget,
    now_unix_s: u64,
    k: int,
)
    requires
        after.remembers(before, target, now_unix_s),
        0 <= k <= before.saved_targets@.len(),
        forall|j: int|
            0 <= j < k ==> (#[trigger] before.saved_targets@[j]).id@ != target.id@,
        k < before.saved_targets@.len() ==> before.saved_targets@[k].id@ == target.id@,
    ensures
        after.selected_target_id is Some && after.selected_target_id->0@ == target.id@,
        k < after.saved_targets@.len(),
        ({
            let saved = after.saved_targets@[k];
            &&& saved.id@ == target.id@ && saved.label@ == target.label@
            &&& saved.endpoint@ == target.endpoint@ && saved.mode == target.mode
            &&& saved.profile_hint == target.profile_hint && saved.pinned == target.pinned
            &&& saved.last_connected_unix_s == Some(now_unix_s)
        }),
        forall|j: int|
            0 <= j < before.saved_targets@.len() && j != k ==> #[trigger] after.saved_targets@[j]
                == before.saved_targets@[j],
        after.platform == before.platform && after.density == before.density,
{
    saving_replaces_or_appends(before.saved_targets@, connected(target, now_unix_s), k);
}

/// Whether a platform reaches a target by itself: a browser cannot open a local
/// socket, a desktop has no engine in its page, and all else is reached.
pub proof fn platforms_reach_what_they_can(saved: SavedAttachTarget, platform: PlatformKind)
    ensures
        saved.status_on(platform) is NeedsBridge <==> platform is Browser
            && saved.mode is LocalDesktop,
        saved.status_on(platform) is NeedsBrowser <==> platform is Desktop
            && saved.mode is BrowserEngine,
        saved.status_on(platform) is Available <==> !(platform is Browser
            && saved.mode is LocalDesktop) && !(platform is Desktop && saved.mode is BrowserEngine),
{
}

/// Trust is valid only with an identity and a trust context that is there; an
/// identity is missed only where there is a trust context to use it.
pub proof fn trust_needs_context_and_identity(capabilities: CapabilitySet, has_identity: bool)
    ensures
        ({
            let context = capabilities.trust_context;
            let there = context is Enabled || context is Degraded || context is ReadOnly;
            let trust = trust_posture(capabilities, has_identity);
            &&& trust is Valid <==> there && has_identity
            &&& trust is NoIdentity <==> there && !has_identity
            &&& trust is Unsupported <==> !there
        }),
{
}

/// What is observed of a forwarder goes by its observability alone.
pub proof fn observing_follows_the_capability(capabilities: CapabilitySet)
    ensures
        ({
            let state = capabilities.observability;
            let posture = observe_posture(capabilities);
            &&& posture is Enabled <==> state is Enabled
            &&& posture is Degraded <==> state is Degraded
            &&& posture is Disabled <==> state is Disabled
            &&& posture is Unsupported <==> state is Unsupported || state is ReadOnly
            &&& !(posture is Error)
        }),
{
}

/// What evidence of native extensions amounts to: basic management and the
/// extensions are enabled, and each other feature is as it was observed.
pub proof fn native_evidence_is_taken_over(evidence: CapabilityEvidence)
    requires
        evidence.nfd_basic,
        evidence.ndnrs_native,
    ensures
        ({
            let found = CapabilitySet::normalized(evidence);
            &&& found.nfd_basic is Enabled && found.ndnrs_native is Enabled
            &&& found.observability == evidence.observability
            &&& found.trust_context == evidence.trust_context
            &&& found.tools == evidence.tools
        }),
{
}

/// The order of preset targets: pinned ones first, and within them, as within
/// the rest, by label. The first one is selected, and the first three count as
/// recent.
pub proof fn preset_targets_stand_in_order(
    preferences: DashboardPreferences,
    platform: PlatformKind,
    targets: Seq<AttachTarget>,
    i: int,
    j: int,
)
    requires
        preferences.is_default(platform, targets),
        0 <= i < j < preferences.saved_targets@.len(),
    ensures
        preferences.saved_targets@.len() == targets.len(),
        ({
            let first = preferences.saved_targets@[i];
            let second = preferences.saved_targets@[j];
            &&& second.pinned ==> first.pinned
            &&& first.pinned == second.pinned ==> !text::text_lt(second.label@, first.label@)
        }),
        preferences.selected_target_id is Some && preferences.selected_target_id->0@
            == preferences.saved_targets@[0].id@,
        preferences.recent_targets@.len() <= 3,
        j < 3 ==> j < preferences.recent_targets@.len() && preferences.recent_targets@[j]
            == preferences.saved_targets@[j],
{
    let saved = choose|saved: Seq<SavedAttachTarget>|
        default_entries(saved, targets) && preferences.saved_targets@ == #[trigger] sorted_by_pin(
            saved,
        );
    let key = |t: SavedAttachTarget| by_pin_and_label(t);
    let keys = saved.map_values(key);
    let turned = order::order_of(keys);
    order::order_of_is_stable(keys);
    assert(order::comes_before(keys, turned[i], turned[j]));
    order::lemma_lt_total(keys[turned[i]], keys[turned[j]]);
    assert(preferences.saved_targets@[i] == saved[turned[i]]);
    assert(preferences.saved_targets@[j] == saved[turned[j]]);
    let a = preferences.saved_targets@[i];
    let b = preferences.saved_targets@[j];
    assert(keys[turned[i]] == by_pin_and_label(a));
    assert(keys[turned[j]] == by_pin_and_label(b));
    if a.pinned == b.pinned && text::text_lt(b.label@, a.label@) {
        assert(keys[turned[j]].lt(keys[turned[i]]));
    }
}

/// A target is told apart by how it is reached, what it is hinted to be, and
/// where it is.
pub proof fn targets_are_told_apart_by_their_ids(target: AttachTarget)
    ensures
        target.mode is LocalDesktop && target.profile_hint == Some(ForwarderKind::NdnRs)
            ==> target.id_text() == "local desktop"@ + ":"@ + "ndn-rs"@ + ":"@ + target.endpoint@,
        target.mode is LocalDesktop && target.profile_hint == Some(ForwarderKind::Nfd)
            ==> target.id_text() == "local desktop"@ + ":"@ + "NFD"@ + ":"@ + target.endpoint@,
        target.mode is Relay && target.profile_hint == Some(ForwarderKind::YaNfd)
            ==> target.id_text() == "relay"@ + ":"@ + "YaNFD"@ + ":"@ + target.endpoint@,
        target.mode is RemoteWeb && target.profile_hint is None ==> target.id_text()
            == "remote web"@ + ":"@ + "unknown"@ + ":"@ + target.endpoint@,
        target.mode is BrowserEngine && target.profile_hint == Some(ForwarderKind::BrowserEngine)
            ==> target.id_text() == "browser engine"@ + ":"@ + "browser engine"@ + ":"@
            + target.endpoint@,
{
}

/// Each capability is a row of its own, in its own state and with the probe
/// that told it, and the note of a row says what its state allows.
pub proof fn capabilities_are_told_row_by_row(
    profile: ForwarderProfile,
    rows: Vec<CapabilityMatrixRow>,
)
    requires
        call_ensures(capability_matrix, (&profile,), rows),
    ensures
        rows@.len() == 5,
        rows@[0].state == profile.capabilities.nfd_basic && rows@[0].source_probe@
            == "/localhost/nfd/status/general"@,
        rows@[1].state == profile.capabilities.ndnrs_native && rows@[1].source_probe@
            == "/localhost/nfd/ndnrs/capabilities"@,
        rows@[2].state == profile.capabilities.observability && rows@[2].source_probe@
            == "/localhost/nfd/observability/recent"@,
        rows@[3].state == profile.capabilities.trust_context && rows@[3].source_probe@
            == "/localhost/nfd/security/context"@,
        rows@[4].state == profile.capabilities.tools && rows@[4].source_probe@
            == "/localhost/nfd/tools/list"@,
        profile.capabilities.nfd_basic == FeatureState::Enabled ==> rows@[0].explanation@
            == "Full management surface is available."@,
        profile.capabilities.nfd_basic == FeatureState::ReadOnly ==> rows@[0].explanation@
            == "Read datasets are available; writes stay gated."@,
        profile.capabilities.ndnrs_native != FeatureState::Enabled ==> rows@[1].explanation@
            == "Use the compatible Engine views; native controls remain hidden."@,
        profile.capabilities.observability == FeatureState::Disabled ==> rows@[2].explanation@
            == "The forwarder supports observability but has it disabled."@,
        profile.capabilities.trust_context == FeatureState::Enabled ==> rows@[3].explanation@
            == "Trust posture and approval workflows can be shown."@,
        profile.capabilities.tools == FeatureState::Disabled || profile.capabilities.tools
            == FeatureState::Unsupported || profile.capabilities.tools == FeatureState::Degraded
            ==> rows@[4].explanation@ == "Tool actions must be disabled for this target."@,
{
}

} // verus!
